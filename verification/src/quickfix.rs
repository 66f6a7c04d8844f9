//! The QuickFIX dictionaries that ship with the library, one XML text per
//! protocol version. Each text stands here without its first line, which
//! names the version and is kept with the versions.

use vstd::prelude::*;

verus! {

/// The dictionary of FIX 4.0, after the line that opens its root element.
pub const QUICKFIX_FIX40: &'static str = "\
 <header>\n\
  <field name='BeginString' required='Y'/>\n\
  <field name='BodyLength' required='Y'/>\n\
  <field name='MsgType' required='Y'/>\n\
  <field name='SenderCompID' required='Y'/>\n\
  <field name='TargetCompID' required='Y'/>\n\
  <field name='OnBehalfOfCompID' required='N'/>\n\
  <field name='DeliverToCompID' required='N'/>\n\
  <field name='SecureDataLen' required='N'/>\n\
  <field name='SecureData' required='N'/>\n\
  <field name='MsgSeqNum' required='Y'/>\n\
  <field name='SenderSubID' required='N'/>\n\
  <field name='TargetSubID' required='N'/>\n\
  <field name='PossDupFlag' required='N'/>\n\
  <field name='PossResend' required='N'/>\n\
  <field name='SendingTime' required='Y'/>\n\
  <field name='OrigSendingTime' required='N'/>\n\
 </header>\n\
 <messages>\n\
  <message name='Heartbeat' msgtype='0' msgcat='admin'>\n\
   <field name='TestReqID' required='N'/>\n\
  </message>\n\
  <message name='TestRequest' msgtype='1' msgcat='admin'>\n\
   <field name='TestReqID' required='Y'/>\n\
  </message>\n\
  <message name='ResendRequest' msgtype='2' msgcat='admin'>\n\
   <field name='BeginSeqNo' required='Y'/>\n\
   <field name='EndSeqNo' required='Y'/>\n\
  </message>\n\
  <message name='Reject' msgtype='3' msgcat='admin'>\n\
   <field name='RefSeqNum' required='Y'/>\n\
   <field name='Text' required='N'/>\n\
  </message>\n\
  <message name='SequenceReset' msgtype='4' msgcat='admin'>\n\
   <field name='GapFillFlag' required='N'/>\n\
   <field name='NewSeqNo' required='Y'/>\n\
  </message>\n\
  <message name='Logout' msgtype='5' msgcat='admin'>\n\
   <field name='Text' required='N'/>\n\
  </message>\n\
  <message name='Logon' msgtype='A' msgcat='admin'>\n\
   <field name='EncryptMethod' required='Y'/>\n\
   <field name='HeartBtInt' required='Y'/>\n\
   <field name='RawDataLength' required='N'/>\n\
   <field name='RawData' required='N'/>\n\
  </message>\n\
  <message name='ExecutionReport' msgtype='8' msgcat='app'>\n\
   <field name='OrderID' required='Y'/>\n\
   <field name='ClOrdID' required='N'/>\n\
   <field name='OrigClOrdID' required='N'/>\n\
   <field name='ExecID' required='Y'/>\n\
   <field name='OrdStatus' required='Y'/>\n\
   <field name='Account' required='N'/>\n\
   <field name='Symbol' required='Y'/>\n\
   <field name='SecurityID' required='N'/>\n\
   <field name='SecurityIDSource' required='N'/>\n\
   <field name='SecurityType' required='N'/>\n\
   <field name='Side' required='Y'/>\n\
   <field name='OrderQty' required='N'/>\n\
   <field name='Price' required='N'/>\n\
   <field name='CumQty' required='Y'/>\n\
   <field name='AvgPx' required='Y'/>\n\
   <field name='TransactTime' required='N'/>\n\
   <field name='Text' required='N'/>\n\
  </message>\n\
  <message name='NewOrderSingle' msgtype='D' msgcat='app'>\n\
   <field name='ClOrdID' required='Y'/>\n\
   <field name='Account' required='N'/>\n\
   <field name='HandlInst' required='Y'/>\n\
   <field name='Symbol' required='Y'/>\n\
   <field name='SecurityID' required='N'/>\n\
   <field name='SecurityIDSource' required='N'/>\n\
   <field name='SecurityType' required='N'/>\n\
   <field name='Side' required='Y'/>\n\
   <field name='OrderQty' required='Y'/>\n\
   <field name='OrdType' required='Y'/>\n\
   <field name='Price' required='N'/>\n\
   <field name='Currency' required='N'/>\n\
   <field name='TimeInForce' required='N'/>\n\
   <field name='Text' required='N'/>\n\
  </message>\n\
  <message name='OrderCancelRequest' msgtype='F' msgcat='app'>\n\
   <field name='OrigClOrdID' required='Y'/>\n\
   <field name='OrderID' required='N'/>\n\
   <field name='ClOrdID' required='Y'/>\n\
   <field name='Symbol' required='Y'/>\n\
   <field name='SecurityID' required='N'/>\n\
   <field name='SecurityIDSource' required='N'/>\n\
   <field name='SecurityType' required='N'/>\n\
   <field name='Side' required='Y'/>\n\
   <field name='OrderQty' required='Y'/>\n\
   <field name='Text' required='N'/>\n\
  </message>\n\
 </messages>\n\
 <trailer>\n\
  <field name='SignatureLength' required='N'/>\n\
  <field name='Signature' required='N'/>\n\
  <field name='CheckSum' required='Y'/>\n\
 </trailer>\n\
 <components>\n\
 </components>\n\
 <fields>\n\
  <field number='1' name='Account' type='STRING'/>\n\
  <field number='6' name='AvgPx' type='PRICE'/>\n\
  <field number='7' name='BeginSeqNo' type='SEQNUM'/>\n\
  <field number='8' name='BeginString' type='STRING'/>\n\
  <field number='9' name='BodyLength' type='LENGTH'/>\n\
  <field number='10' name='CheckSum' type='STRING'/>\n\
  <field number='11' name='ClOrdID' type='STRING'/>\n\
  <field number='14' name='CumQty' type='QTY'/>\n\
  <field number='15' name='Currency' type='CURRENCY'/>\n\
  <field number='16' name='EndSeqNo' type='SEQNUM'/>\n\
  <field number='17' name='ExecID' type='STRING'/>\n\
  <field number='21' name='HandlInst' type='CHAR'>\n\
   <value enum='1' description='AUTOMATED_EXECUTION_ORDER_PRIVATE'/>\n\
   <value enum='2' description='AUTOMATED_EXECUTION_ORDER_PUBLIC'/>\n\
   <value enum='3' description='MANUAL_ORDER'/>\n\
  </field>\n\
  <field number='22' name='SecurityIDSource' type='STRING'>\n\
   <value enum='1' description='CUSIP'/>\n\
   <value enum='2' description='SEDOL'/>\n\
   <value enum='4' description='ISIN_NUMBER'/>\n\
   <value enum='8' description='EXCHANGE_SYMBOL'/>\n\
  </field>\n\
  <field number='34' name='MsgSeqNum' type='SEQNUM'/>\n\
  <field number='35' name='MsgType' type='STRING'>\n\
   <value enum='0' description='HEARTBEAT'/>\n\
   <value enum='1' description='TESTREQUEST'/>\n\
   <value enum='2' description='RESENDREQUEST'/>\n\
   <value enum='3' description='REJECT'/>\n\
   <value enum='4' description='SEQUENCERESET'/>\n\
   <value enum='5' description='LOGOUT'/>\n\
   <value enum='A' description='LOGON'/>\n\
   <value enum='8' description='EXECUTIONREPORT'/>\n\
   <value enum='D' description='NEWORDERSINGLE'/>\n\
   <value enum='F' description='ORDERCANCELREQUEST'/>\n\
  </field>\n\
  <field number='36' name='NewSeqNo' type='SEQNUM'/>\n\
  <field number='37' name='OrderID' type='STRING'/>\n\
  <field number='38' name='OrderQty' type='QTY'/>\n\
  <field number='39' name='OrdStatus' type='CHAR'>\n\
   <value enum='0' description='NEW'/>\n\
   <value enum='1' description='PARTIALLY_FILLED'/>\n\
   <value enum='2' description='FILLED'/>\n\
   <value enum='4' description='CANCELED'/>\n\
   <value enum='8' description='REJECTED'/>\n\
  </field>\n\
  <field number='40' name='OrdType' type='CHAR'>\n\
   <value enum='1' description='MARKET'/>\n\
   <value enum='2' description='LIMIT'/>\n\
   <value enum='3' description='STOP'/>\n\
  </field>\n\
  <field number='41' name='OrigClOrdID' type='STRING'/>\n\
  <field number='43' name='PossDupFlag' type='BOOLEAN'/>\n\
  <field number='44' name='Price' type='PRICE'/>\n\
  <field number='45' name='RefSeqNum' type='SEQNUM'/>\n\
  <field number='48' name='SecurityID' type='STRING'/>\n\
  <field number='49' name='SenderCompID' type='STRING'/>\n\
  <field number='50' name='SenderSubID' type='STRING'/>\n\
  <field number='52' name='SendingTime' type='UTCTIMESTAMP'/>\n\
  <field number='54' name='Side' type='CHAR'>\n\
   <value enum='1' description='BUY'/>\n\
   <value enum='2' description='SELL'/>\n\
  </field>\n\
  <field number='55' name='Symbol' type='STRING'/>\n\
  <field number='56' name='TargetCompID' type='STRING'/>\n\
  <field number='57' name='TargetSubID' type='STRING'/>\n\
  <field number='58' name='Text' type='STRING'/>\n\
  <field number='59' name='TimeInForce' type='CHAR'>\n\
   <value enum='0' description='DAY'/>\n\
   <value enum='1' description='GOOD_TILL_CANCEL'/>\n\
   <value enum='3' description='IMMEDIATE_OR_CANCEL'/>\n\
  </field>\n\
  <field number='60' name='TransactTime' type='UTCTIMESTAMP'/>\n\
  <field number='89' name='Signature' type='DATA'/>\n\
  <field number='90' name='SecureDataLen' type='LENGTH'/>\n\
  <field number='91' name='SecureData' type='DATA'/>\n\
  <field number='93' name='SignatureLength' type='LENGTH'/>\n\
  <field number='95' name='RawDataLength' type='LENGTH'/>\n\
  <field number='96' name='RawData' type='DATA'/>\n\
  <field number='97' name='PossResend' type='BOOLEAN'/>\n\
  <field number='98' name='EncryptMethod' type='INT'>\n\
   <value enum='0' description='NONE'/>\n\
  </field>\n\
  <field number='108' name='HeartBtInt' type='INT'/>\n\
  <field number='112' name='TestReqID' type='STRING'/>\n\
  <field number='115' name='OnBehalfOfCompID' type='STRING'/>\n\
  <field number='122' name='OrigSendingTime' type='UTCTIMESTAMP'/>\n\
  <field number='123' name='GapFillFlag' type='BOOLEAN'/>\n\
  <field number='128' name='DeliverToCompID' type='STRING'/>\n\
  <field number='167' name='SecurityType' type='STRING'/>\n\
 </fields>\n\
</fix>\n\
";

/// The dictionary of FIX 4.1, after the line that opens its root element.
pub const QUICKFIX_FIX41: &'static str = "\
 <header>\n\
  <field name='BeginString' required='Y'/>\n\
  <field name='BodyLength' required='Y'/>\n\
  <field name='MsgType' required='Y'/>\n\
  <field name='SenderCompID' required='Y'/>\n\
  <field name='TargetCompID' required='Y'/>\n\
  <field name='OnBehalfOfCompID' required='N'/>\n\
  <field name='DeliverToCompID' required='N'/>\n\
  <field name='SecureDataLen' required='N'/>\n\
  <field name='SecureData' required='N'/>\n\
  <field name='MsgSeqNum' required='Y'/>\n\
  <field name='SenderSubID' required='N'/>\n\
  <field name='TargetSubID' required='N'/>\n\
  <field name='PossDupFlag' required='N'/>\n\
  <field name='PossResend' required='N'/>\n\
  <field name='SendingTime' required='Y'/>\n\
  <field name='OrigSendingTime' required='N'/>\n\
 </header>\n\
 <messages>\n\
  <message name='Heartbeat' msgtype='0' msgcat='admin'>\n\
   <field name='TestReqID' required='N'/>\n\
  </message>\n\
  <message name='TestRequest' msgtype='1' msgcat='admin'>\n\
   <field name='TestReqID' required='Y'/>\n\
  </message>\n\
  <message name='ResendRequest' msgtype='2' msgcat='admin'>\n\
   <field name='BeginSeqNo' required='Y'/>\n\
   <field name='EndSeqNo' required='Y'/>\n\
  </message>\n\
  <message name='Reject' msgtype='3' msgcat='admin'>\n\
   <field name='RefSeqNum' required='Y'/>\n\
   <field name='Text' required='N'/>\n\
  </message>\n\
  <message name='SequenceReset' msgtype='4' msgcat='admin'>\n\
   <field name='GapFillFlag' required='N'/>\n\
   <field name='NewSeqNo' required='Y'/>\n\
  </message>\n\
  <message name='Logout' msgtype='5' msgcat='admin'>\n\
   <field name='Text' required='N'/>\n\
  </message>\n\
  <message name='Logon' msgtype='A' msgcat='admin'>\n\
   <field name='EncryptMethod' required='Y'/>\n\
   <field name='HeartBtInt' required='Y'/>\n\
   <field name='RawDataLength' required='N'/>\n\
   <field name='RawData' required='N'/>\n\
   <field name='ResetSeqNumFlag' required='N'/>\n\
  </message>\n\
  <message name='ExecutionReport' msgtype='8' msgcat='app'>\n\
   <field name='OrderID' required='Y'/>\n\
   <field name='ClOrdID' required='N'/>\n\
   <field name='OrigClOrdID' required='N'/>\n\
   <field name='ExecID' required='Y'/>\n\
   <field name='ExecType' required='Y'/>\n\
   <field name='OrdStatus' required='Y'/>\n\
   <field name='Account' required='N'/>\n\
   <field name='Symbol' required='Y'/>\n\
   <field name='SecurityID' required='N'/>\n\
   <field name='SecurityIDSource' required='N'/>\n\
   <field name='SecurityType' required='N'/>\n\
   <field name='SecurityExchange' required='N'/>\n\
   <field name='Side' required='Y'/>\n\
   <field name='OrderQty' required='N'/>\n\
   <field name='Price' required='N'/>\n\
   <field name='LeavesQty' required='Y'/>\n\
   <field name='CumQty' required='Y'/>\n\
   <field name='AvgPx' required='Y'/>\n\
   <field name='TransactTime' required='N'/>\n\
   <field name='Text' required='N'/>\n\
  </message>\n\
  <message name='NewOrderSingle' msgtype='D' msgcat='app'>\n\
   <field name='ClOrdID' required='Y'/>\n\
   <field name='Account' required='N'/>\n\
   <field name='HandlInst' required='Y'/>\n\
   <field name='Symbol' required='Y'/>\n\
   <field name='SecurityID' required='N'/>\n\
   <field name='SecurityIDSource' required='N'/>\n\
   <field name='SecurityType' required='N'/>\n\
   <field name='SecurityExchange' required='N'/>\n\
   <field name='Side' required='Y'/>\n\
   <field name='OrderQty' required='Y'/>\n\
   <field name='OrdType' required='Y'/>\n\
   <field name='Price' required='N'/>\n\
   <field name='Currency' required='N'/>\n\
   <field name='TimeInForce' required='N'/>\n\
   <field name='Text' required='N'/>\n\
  </message>\n\
  <message name='OrderCancelRequest' msgtype='F' msgcat='app'>\n\
   <field name='OrigClOrdID' required='Y'/>\n\
   <field name='OrderID' required='N'/>\n\
   <field name='ClOrdID' required='Y'/>\n\
   <field name='Symbol' required='Y'/>\n\
   <field name='SecurityID' required='N'/>\n\
   <field name='SecurityIDSource' required='N'/>\n\
   <field name='SecurityType' required='N'/>\n\
   <field name='SecurityExchange' required='N'/>\n\
   <field name='Side' required='Y'/>\n\
   <field name='OrderQty' required='Y'/>\n\
   <field name='Text' required='N'/>\n\
  </message>\n\
 </messages>\n\
 <trailer>\n\
  <field name='SignatureLength' required='N'/>\n\
  <field name='Signature' required='N'/>\n\
  <field name='CheckSum' required='Y'/>\n\
 </trailer>\n\
 <components>\n\
 </components>\n\
 <fields>\n\
  <field number='1' name='Account' type='STRING'/>\n\
  <field number='6' name='AvgPx' type='PRICE'/>\n\
  <field number='7' name='BeginSeqNo' type='SEQNUM'/>\n\
  <field number='8' name='BeginString' type='STRING'/>\n\
  <field number='9' name='BodyLength' type='LENGTH'/>\n\
  <field number='10' name='CheckSum' type='STRING'/>\n\
  <field number='11' name='ClOrdID' type='STRING'/>\n\
  <field number='14' name='CumQty' type='QTY'/>\n\
  <field number='15' name='Currency' type='CURRENCY'/>\n\
  <field number='16' name='EndSeqNo' type='SEQNUM'/>\n\
  <field number='17' name='ExecID' type='STRING'/>\n\
  <field number='21' name='HandlInst' type='CHAR'>\n\
   <value enum='1' description='AUTOMATED_EXECUTION_ORDER_PRIVATE'/>\n\
   <value enum='2' description='AUTOMATED_EXECUTION_ORDER_PUBLIC'/>\n\
   <value enum='3' description='MANUAL_ORDER'/>\n\
  </field>\n\
  <field number='22' name='SecurityIDSource' type='STRING'>\n\
   <value enum='1' description='CUSIP'/>\n\
   <value enum='2' description='SEDOL'/>\n\
   <value enum='4' description='ISIN_NUMBER'/>\n\
   <value enum='8' description='EXCHANGE_SYMBOL'/>\n\
  </field>\n\
  <field number='34' name='MsgSeqNum' type='SEQNUM'/>\n\
  <field number='35' name='MsgType' type='STRING'>\n\
   <value enum='0' description='HEARTBEAT'/>\n\
   <value enum='1' description='TESTREQUEST'/>\n\
   <value enum='2' description='RESENDREQUEST'/>\n\
   <value enum='3' description='REJECT'/>\n\
   <value enum='4' description='SEQUENCERESET'/>\n\
   <value enum='5' description='LOGOUT'/>\n\
   <value enum='A' description='LOGON'/>\n\
   <value enum='8' description='EXECUTIONREPORT'/>\n\
   <value enum='D' description='NEWORDERSINGLE'/>\n\
   <value enum='F' description='ORDERCANCELREQUEST'/>\n\
  </field>\n\
  <field number='36' name='NewSeqNo' type='SEQNUM'/>\n\
  <field number='37' name='OrderID' type='STRING'/>\n\
  <field number='38' name='OrderQty' type='QTY'/>\n\
  <field number='39' name='OrdStatus' type='CHAR'>\n\
   <value enum='0' description='NEW'/>\n\
   <value enum='1' description='PARTIALLY_FILLED'/>\n\
   <value enum='2' description='FILLED'/>\n\
   <value enum='4' description='CANCELED'/>\n\
   <value enum='8' description='REJECTED'/>\n\
  </field>\n\
  <field number='40' name='OrdType' type='CHAR'>\n\
   <value enum='1' description='MARKET'/>\n\
   <value enum='2' description='LIMIT'/>\n\
   <value enum='3' description='STOP'/>\n\
  </field>\n\
  <field number='41' name='OrigClOrdID' type='STRING'/>\n\
  <field number='43' name='PossDupFlag' type='BOOLEAN'/>\n\
  <field number='44' name='Price' type='PRICE'/>\n\
  <field number='45' name='RefSeqNum' type='SEQNUM'/>\n\
  <field number='48' name='SecurityID' type='STRING'/>\n\
  <field number='49' name='SenderCompID' type='STRING'/>\n\
  <field number='50' name='SenderSubID' type='STRING'/>\n\
  <field number='52' name='SendingTime' type='UTCTIMESTAMP'/>\n\
  <field number='54' name='Side' type='CHAR'>\n\
   <value enum='1' description='BUY'/>\n\
   <value enum='2' description='SELL'/>\n\
  </field>\n\
  <field number='55' name='Symbol' type='STRING'/>\n\
  <field number='56' name='TargetCompID' type='STRING'/>\n\
  <field number='57' name='TargetSubID' type='STRING'/>\n\
  <field number='58' name='Text' type='STRING'/>\n\
  <field number='59' name='TimeInForce' type='CHAR'>\n\
   <value enum='0' description='DAY'/>\n\
   <value enum='1' description='GOOD_TILL_CANCEL'/>\n\
   <value enum='3' description='IMMEDIATE_OR_CANCEL'/>\n\
  </field>\n\
  <field number='60' name='TransactTime' type='UTCTIMESTAMP'/>\n\
  <field number='89' name='Signature' type='DATA'/>\n\
  <field number='90' name='SecureDataLen' type='LENGTH'/>\n\
  <field number='91' name='SecureData' type='DATA'/>\n\
  <field number='93' name='SignatureLength' type='LENGTH'/>\n\
  <field number='95' name='RawDataLength' type='LENGTH'/>\n\
  <field number='96' name='RawData' type='DATA'/>\n\
  <field number='97' name='PossResend' type='BOOLEAN'/>\n\
  <field number='98' name='EncryptMethod' type='INT'>\n\
   <value enum='0' description='NONE'/>\n\
  </field>\n\
  <field number='108' name='HeartBtInt' type='INT'/>\n\
  <field number='112' name='TestReqID' type='STRING'/>\n\
  <field number='115' name='OnBehalfOfCompID' type='STRING'/>\n\
  <field number='122' name='OrigSendingTime' type='UTCTIMESTAMP'/>\n\
  <field number='123' name='GapFillFlag' type='BOOLEAN'/>\n\
  <field number='128' name='DeliverToCompID' type='STRING'/>\n\
  <field number='141' name='ResetSeqNumFlag' type='BOOLEAN'/>\n\
  <field number='150' name='ExecType' type='CHAR'>\n\
   <value enum='0' description='NEW'/>\n\
   <value enum='4' description='CANCELED'/>\n\
   <value enum='8' description='REJECTED'/>\n\
   <value enum='F' description='TRADE'/>\n\
  </field>\n\
  <field number='151' name='LeavesQty' type='QTY'/>\n\
  <field number='167' name='SecurityType' type='STRING'/>\n\
  <field number='207' name='SecurityExchange' type='EXCHANGE'/>\n\
 </fields>\n\
</fix>\n\
";

/// The dictionary of FIX 4.2, after the line that opens its root element.
pub const QUICKFIX_FIX42: &'static str = "\
 <header>\n\
  <field name='BeginString' required='Y'/>\n\
  <field name='BodyLength' required='Y'/>\n\
  <field name='MsgType' required='Y'/>\n\
  <field name='SenderCompID' required='Y'/>\n\
  <field name='TargetCompID' required='Y'/>\n\
  <field name='OnBehalfOfCompID' required='N'/>\n\
  <field name='DeliverToCompID' required='N'/>\n\
  <field name='SecureDataLen' required='N'/>\n\
  <field name='SecureData' required='N'/>\n\
  <field name='MsgSeqNum' required='Y'/>\n\
  <field name='SenderSubID' required='N'/>\n\
  <field name='TargetSubID' required='N'/>\n\
  <field name='PossDupFlag' required='N'/>\n\
  <field name='PossResend' required='N'/>\n\
  <field name='SendingTime' required='Y'/>\n\
  <field name='OrigSendingTime' required='N'/>\n\
  <field name='XmlDataLen' required='N'/>\n\
  <field name='XmlData' required='N'/>\n\
  <field name='MessageEncoding' required='N'/>\n\
  <field name='LastMsgSeqNumProcessed' required='N'/>\n\
 </header>\n\
 <messages>\n\
  <message name='Heartbeat' msgtype='0' msgcat='admin'>\n\
   <field name='TestReqID' required='N'/>\n\
  </message>\n\
  <message name='TestRequest' msgtype='1' msgcat='admin'>\n\
   <field name='TestReqID' required='Y'/>\n\
  </message>\n\
  <message name='ResendRequest' msgtype='2' msgcat='admin'>\n\
   <field name='BeginSeqNo' required='Y'/>\n\
   <field name='EndSeqNo' required='Y'/>\n\
  </message>\n\
  <message name='Reject' msgtype='3' msgcat='admin'>\n\
   <field name='RefSeqNum' required='Y'/>\n\
   <field name='RefTagID' required='N'/>\n\
   <field name='RefMsgType' required='N'/>\n\
   <field name='SessionRejectReason' required='N'/>\n\
   <field name='Text' required='N'/>\n\
  </message>\n\
  <message name='SequenceReset' msgtype='4' msgcat='admin'>\n\
   <field name='GapFillFlag' required='N'/>\n\
   <field name='NewSeqNo' required='Y'/>\n\
  </message>\n\
  <message name='Logout' msgtype='5' msgcat='admin'>\n\
   <field name='Text' required='N'/>\n\
  </message>\n\
  <message name='Logon' msgtype='A' msgcat='admin'>\n\
   <field name='EncryptMethod' required='Y'/>\n\
   <field name='HeartBtInt' required='Y'/>\n\
   <field name='RawDataLength' required='N'/>\n\
   <field name='RawData' required='N'/>\n\
   <field name='ResetSeqNumFlag' required='N'/>\n\
   <field name='MaxMessageSize' required='N'/>\n\
   <group name='NoMsgTypes' required='N'>\n\
    <field name='RefMsgType' required='N'/>\n\
    <field name='MsgDirection' required='N'/>\n\
   </group>\n\
  </message>\n\
  <message name='ExecutionReport' msgtype='8' msgcat='app'>\n\
   <field name='OrderID' required='Y'/>\n\
   <field name='ClOrdID' required='N'/>\n\
   <field name='OrigClOrdID' required='N'/>\n\
   <field name='ExecID' required='Y'/>\n\
   <field name='ExecType' required='Y'/>\n\
   <field name='OrdStatus' required='Y'/>\n\
   <field name='Account' required='N'/>\n\
   <field name='Symbol' required='Y'/>\n\
   <field name='SecurityID' required='N'/>\n\
   <field name='SecurityIDSource' required='N'/>\n\
   <field name='SecurityType' required='N'/>\n\
   <field name='SecurityExchange' required='N'/>\n\
   <field name='Side' required='Y'/>\n\
   <field name='OrderQty' required='N'/>\n\
   <field name='Price' required='N'/>\n\
   <field name='LeavesQty' required='Y'/>\n\
   <field name='CumQty' required='Y'/>\n\
   <field name='AvgPx' required='Y'/>\n\
   <field name='TransactTime' required='N'/>\n\
   <field name='Text' required='N'/>\n\
  </message>\n\
  <message name='NewOrderSingle' msgtype='D' msgcat='app'>\n\
   <field name='ClOrdID' required='Y'/>\n\
   <field name='Account' required='N'/>\n\
   <field name='HandlInst' required='Y'/>\n\
   <field name='Symbol' required='Y'/>\n\
   <field name='SecurityID' required='N'/>\n\
   <field name='SecurityIDSource' required='N'/>\n\
   <field name='SecurityType' required='N'/>\n\
   <field name='SecurityExchange' required='N'/>\n\
   <field name='Side' required='Y'/>\n\
   <field name='TransactTime' required='Y'/>\n\
   <field name='OrderQty' required='Y'/>\n\
   <field name='OrdType' required='Y'/>\n\
   <field name='Price' required='N'/>\n\
   <field name='Currency' required='N'/>\n\
   <field name='TimeInForce' required='N'/>\n\
   <field name='Text' required='N'/>\n\
  </message>\n\
  <message name='OrderCancelRequest' msgtype='F' msgcat='app'>\n\
   <field name='OrigClOrdID' required='Y'/>\n\
   <field name='OrderID' required='N'/>\n\
   <field name='ClOrdID' required='Y'/>\n\
   <field name='Symbol' required='Y'/>\n\
   <field name='SecurityID' required='N'/>\n\
   <field name='SecurityIDSource' required='N'/>\n\
   <field name='SecurityType' required='N'/>\n\
   <field name='SecurityExchange' required='N'/>\n\
   <field name='Side' required='Y'/>\n\
   <field name='OrderQty' required='Y'/>\n\
   <field name='Text' required='N'/>\n\
  </message>\n\
  <message name='MarketDataRequest' msgtype='V' msgcat='app'>\n\
   <field name='MDReqID' required='Y'/>\n\
   <field name='SubscriptionRequestType' required='Y'/>\n\
   <field name='MarketDepth' required='Y'/>\n\
   <group name='NoMDEntryTypes' required='Y'>\n\
    <field name='MDEntryType' required='Y'/>\n\
   </group>\n\
   <group name='NoRelatedSym' required='Y'>\n\
    <field name='Symbol' required='Y'/>\n\
    <field name='SecurityID' required='N'/>\n\
    <field name='SecurityIDSource' required='N'/>\n\
    <field name='SecurityType' required='N'/>\n\
    <field name='SecurityExchange' required='N'/>\n\
   </group>\n\
  </message>\n\
  <message name='MarketDataSnapshotFullRefresh' msgtype='W' msgcat='app'>\n\
   <field name='MDReqID' required='N'/>\n\
   <field name='Symbol' required='Y'/>\n\
   <field name='SecurityID' required='N'/>\n\
   <field name='SecurityIDSource' required='N'/>\n\
   <field name='SecurityType' required='N'/>\n\
   <field name='SecurityExchange' required='N'/>\n\
   <group name='NoMDEntries' required='Y'>\n\
    <field name='MDEntryType' required='Y'/>\n\
    <field name='MDEntryPx' required='N'/>\n\
    <field name='Currency' required='N'/>\n\
    <field name='MDEntrySize' required='N'/>\n\
    <field name='MDEntryDate' required='N'/>\n\
    <field name='MDEntryTime' required='N'/>\n\
    <field name='Text' required='N'/>\n\
   </group>\n\
  </message>\n\
 </messages>\n\
 <trailer>\n\
  <field name='SignatureLength' required='N'/>\n\
  <field name='Signature' required='N'/>\n\
  <field name='CheckSum' required='Y'/>\n\
 </trailer>\n\
 <components>\n\
 </components>\n\
 <fields>\n\
  <field number='1' name='Account' type='STRING'/>\n\
  <field number='6' name='AvgPx' type='PRICE'/>\n\
  <field number='7' name='BeginSeqNo' type='SEQNUM'/>\n\
  <field number='8' name='BeginString' type='STRING'/>\n\
  <field number='9' name='BodyLength' type='LENGTH'/>\n\
  <field number='10' name='CheckSum' type='STRING'/>\n\
  <field number='11' name='ClOrdID' type='STRING'/>\n\
  <field number='14' name='CumQty' type='QTY'/>\n\
  <field number='15' name='Currency' type='CURRENCY'/>\n\
  <field number='16' name='EndSeqNo' type='SEQNUM'/>\n\
  <field number='17' name='ExecID' type='STRING'/>\n\
  <field number='21' name='HandlInst' type='CHAR'>\n\
   <value enum='1' description='AUTOMATED_EXECUTION_ORDER_PRIVATE'/>\n\
   <value enum='2' description='AUTOMATED_EXECUTION_ORDER_PUBLIC'/>\n\
   <value enum='3' description='MANUAL_ORDER'/>\n\
  </field>\n\
  <field number='22' name='SecurityIDSource' type='STRING'>\n\
   <value enum='1' description='CUSIP'/>\n\
   <value enum='2' description='SEDOL'/>\n\
   <value enum='4' description='ISIN_NUMBER'/>\n\
   <value enum='8' description='EXCHANGE_SYMBOL'/>\n\
  </field>\n\
  <field number='34' name='MsgSeqNum' type='SEQNUM'/>\n\
  <field number='35' name='MsgType' type='STRING'>\n\
   <value enum='0' description='HEARTBEAT'/>\n\
   <value enum='1' description='TESTREQUEST'/>\n\
   <value enum='2' description='RESENDREQUEST'/>\n\
   <value enum='3' description='REJECT'/>\n\
   <value enum='4' description='SEQUENCERESET'/>\n\
   <value enum='5' description='LOGOUT'/>\n\
   <value enum='A' description='LOGON'/>\n\
   <value enum='8' description='EXECUTIONREPORT'/>\n\
   <value enum='D' description='NEWORDERSINGLE'/>\n\
   <value enum='F' description='ORDERCANCELREQUEST'/>\n\
   <value enum='V' description='MARKETDATAREQUEST'/>\n\
   <value enum='W' description='MARKETDATASNAPSHOTFULLREFRESH'/>\n\
  </field>\n\
  <field number='36' name='NewSeqNo' type='SEQNUM'/>\n\
  <field number='37' name='OrderID' type='STRING'/>\n\
  <field number='38' name='OrderQty' type='QTY'/>\n\
  <field number='39' name='OrdStatus' type='CHAR'>\n\
   <value enum='0' description='NEW'/>\n\
   <value enum='1' description='PARTIALLY_FILLED'/>\n\
   <value enum='2' description='FILLED'/>\n\
   <value enum='4' description='CANCELED'/>\n\
   <value enum='8' description='REJECTED'/>\n\
  </field>\n\
  <field number='40' name='OrdType' type='CHAR'>\n\
   <value enum='1' description='MARKET'/>\n\
   <value enum='2' description='LIMIT'/>\n\
   <value enum='3' description='STOP'/>\n\
  </field>\n\
  <field number='41' name='OrigClOrdID' type='STRING'/>\n\
  <field number='43' name='PossDupFlag' type='BOOLEAN'/>\n\
  <field number='44' name='Price' type='PRICE'/>\n\
  <field number='45' name='RefSeqNum' type='SEQNUM'/>\n\
  <field number='48' name='SecurityID' type='STRING'/>\n\
  <field number='49' name='SenderCompID' type='STRING'/>\n\
  <field number='50' name='SenderSubID' type='STRING'/>\n\
  <field number='52' name='SendingTime' type='UTCTIMESTAMP'/>\n\
  <field number='54' name='Side' type='CHAR'>\n\
   <value enum='1' description='BUY'/>\n\
   <value enum='2' description='SELL'/>\n\
  </field>\n\
  <field number='55' name='Symbol' type='STRING'/>\n\
  <field number='56' name='TargetCompID' type='STRING'/>\n\
  <field number='57' name='TargetSubID' type='STRING'/>\n\
  <field number='58' name='Text' type='STRING'/>\n\
  <field number='59' name='TimeInForce' type='CHAR'>\n\
   <value enum='0' description='DAY'/>\n\
   <value enum='1' description='GOOD_TILL_CANCEL'/>\n\
   <value enum='3' description='IMMEDIATE_OR_CANCEL'/>\n\
  </field>\n\
  <field number='60' name='TransactTime' type='UTCTIMESTAMP'/>\n\
  <field number='89' name='Signature' type='DATA'/>\n\
  <field number='90' name='SecureDataLen' type='LENGTH'/>\n\
  <field number='91' name='SecureData' type='DATA'/>\n\
  <field number='93' name='SignatureLength' type='LENGTH'/>\n\
  <field number='95' name='RawDataLength' type='LENGTH'/>\n\
  <field number='96' name='RawData' type='DATA'/>\n\
  <field number='97' name='PossResend' type='BOOLEAN'/>\n\
  <field number='98' name='EncryptMethod' type='INT'>\n\
   <value enum='0' description='NONE'/>\n\
  </field>\n\
  <field number='108' name='HeartBtInt' type='INT'/>\n\
  <field number='112' name='TestReqID' type='STRING'/>\n\
  <field number='115' name='OnBehalfOfCompID' type='STRING'/>\n\
  <field number='122' name='OrigSendingTime' type='UTCTIMESTAMP'/>\n\
  <field number='123' name='GapFillFlag' type='BOOLEAN'/>\n\
  <field number='128' name='DeliverToCompID' type='STRING'/>\n\
  <field number='141' name='ResetSeqNumFlag' type='BOOLEAN'/>\n\
  <field number='146' name='NoRelatedSym' type='NUMINGROUP'/>\n\
  <field number='150' name='ExecType' type='CHAR'>\n\
   <value enum='0' description='NEW'/>\n\
   <value enum='4' description='CANCELED'/>\n\
   <value enum='8' description='REJECTED'/>\n\
   <value enum='F' description='TRADE'/>\n\
  </field>\n\
  <field number='151' name='LeavesQty' type='QTY'/>\n\
  <field number='167' name='SecurityType' type='STRING'/>\n\
  <field number='207' name='SecurityExchange' type='EXCHANGE'/>\n\
  <field number='212' name='XmlDataLen' type='LENGTH'/>\n\
  <field number='213' name='XmlData' type='XMLDATA'/>\n\
  <field number='262' name='MDReqID' type='STRING'/>\n\
  <field number='263' name='SubscriptionRequestType' type='CHAR'>\n\
   <value enum='0' description='SNAPSHOT'/>\n\
   <value enum='1' description='SNAPSHOT_PLUS_UPDATES'/>\n\
   <value enum='2' description='DISABLE_PREVIOUS_SNAPSHOT_PLUS_UPDATE_REQUEST'/>\n\
  </field>\n\
  <field number='264' name='MarketDepth' type='INT'/>\n\
  <field number='267' name='NoMDEntryTypes' type='NUMINGROUP'/>\n\
  <field number='268' name='NoMDEntries' type='NUMINGROUP'/>\n\
  <field number='269' name='MDEntryType' type='CHAR'>\n\
   <value enum='0' description='BID'/>\n\
   <value enum='1' description='OFFER'/>\n\
   <value enum='2' description='TRADE'/>\n\
  </field>\n\
  <field number='270' name='MDEntryPx' type='PRICE'/>\n\
  <field number='271' name='MDEntrySize' type='QTY'/>\n\
  <field number='272' name='MDEntryDate' type='UTCDATE'/>\n\
  <field number='273' name='MDEntryTime' type='UTCTIMEONLY'/>\n\
  <field number='347' name='MessageEncoding' type='STRING'/>\n\
  <field number='369' name='LastMsgSeqNumProcessed' type='SEQNUM'/>\n\
  <field number='371' name='RefTagID' type='INT'/>\n\
  <field number='372' name='RefMsgType' type='STRING'/>\n\
  <field number='373' name='SessionRejectReason' type='INT'/>\n\
  <field number='383' name='MaxMessageSize' type='LENGTH'/>\n\
  <field number='384' name='NoMsgTypes' type='NUMINGROUP'/>\n\
  <field number='385' name='MsgDirection' type='CHAR'>\n\
   <value enum='R' description='RECEIVE'/>\n\
   <value enum='S' description='SEND'/>\n\
  </field>\n\
 </fields>\n\
</fix>\n\
";

/// The dictionary of FIX 4.3, after the line that opens its root element.
pub const QUICKFIX_FIX43: &'static str = "\
 <header>\n\
  <field name='BeginString' required='Y'/>\n\
  <field name='BodyLength' required='Y'/>\n\
  <field name='MsgType' required='Y'/>\n\
  <field name='SenderCompID' required='Y'/>\n\
  <field name='TargetCompID' required='Y'/>\n\
  <field name='OnBehalfOfCompID' required='N'/>\n\
  <field name='DeliverToCompID' required='N'/>\n\
  <field name='SecureDataLen' required='N'/>\n\
  <field name='SecureData' required='N'/>\n\
  <field name='MsgSeqNum' required='Y'/>\n\
  <field name='SenderSubID' required='N'/>\n\
  <field name='TargetSubID' required='N'/>\n\
  <field name='PossDupFlag' required='N'/>\n\
  <field name='PossResend' required='N'/>\n\
  <field name='SendingTime' required='Y'/>\n\
  <field name='OrigSendingTime' required='N'/>\n\
  <field name='XmlDataLen' required='N'/>\n\
  <field name='XmlData' required='N'/>\n\
  <field name='MessageEncoding' required='N'/>\n\
  <field name='LastMsgSeqNumProcessed' required='N'/>\n\
  <group name='NoHops' required='N'>\n\
   <field name='HopCompID' required='N'/>\n\
   <field name='HopSendingTime' required='N'/>\n\
   <field name='HopRefID' required='N'/>\n\
  </group>\n\
 </header>\n\
 <messages>\n\
  <message name='Heartbeat' msgtype='0' msgcat='admin'>\n\
   <field name='TestReqID' required='N'/>\n\
  </message>\n\
  <message name='TestRequest' msgtype='1' msgcat='admin'>\n\
   <field name='TestReqID' required='Y'/>\n\
  </message>\n\
  <message name='ResendRequest' msgtype='2' msgcat='admin'>\n\
   <field name='BeginSeqNo' required='Y'/>\n\
   <field name='EndSeqNo' required='Y'/>\n\
  </message>\n\
  <message name='Reject' msgtype='3' msgcat='admin'>\n\
   <field name='RefSeqNum' required='Y'/>\n\
   <field name='RefTagID' required='N'/>\n\
   <field name='RefMsgType' required='N'/>\n\
   <field name='SessionRejectReason' required='N'/>\n\
   <field name='Text' required='N'/>\n\
  </message>\n\
  <message name='SequenceReset' msgtype='4' msgcat='admin'>\n\
   <field name='GapFillFlag' required='N'/>\n\
   <field name='NewSeqNo' required='Y'/>\n\
  </message>\n\
  <message name='Logout' msgtype='5' msgcat='admin'>\n\
   <field name='Text' required='N'/>\n\
  </message>\n\
  <message name='Logon' msgtype='A' msgcat='admin'>\n\
   <field name='EncryptMethod' required='Y'/>\n\
   <field name='HeartBtInt' required='Y'/>\n\
   <field name='RawDataLength' required='N'/>\n\
   <field name='RawData' required='N'/>\n\
   <field name='ResetSeqNumFlag' required='N'/>\n\
   <field name='MaxMessageSize' required='N'/>\n\
   <group name='NoMsgTypes' required='N'>\n\
    <field name='RefMsgType' required='N'/>\n\
    <field name='MsgDirection' required='N'/>\n\
   </group>\n\
  </message>\n\
  <message name='ExecutionReport' msgtype='8' msgcat='app'>\n\
   <field name='OrderID' required='Y'/>\n\
   <field name='ClOrdID' required='N'/>\n\
   <field name='OrigClOrdID' required='N'/>\n\
   <component name='Parties' required='N'/>\n\
   <field name='ExecID' required='Y'/>\n\
   <field name='ExecType' required='Y'/>\n\
   <field name='OrdStatus' required='Y'/>\n\
   <field name='Account' required='N'/>\n\
   <component name='Instrument' required='Y'/>\n\
   <field name='Side' required='Y'/>\n\
   <field name='OrderQty' required='N'/>\n\
   <field name='Price' required='N'/>\n\
   <field name='LeavesQty' required='Y'/>\n\
   <field name='CumQty' required='Y'/>\n\
   <field name='AvgPx' required='Y'/>\n\
   <field name='TransactTime' required='N'/>\n\
   <field name='Text' required='N'/>\n\
  </message>\n\
  <message name='NewOrderSingle' msgtype='D' msgcat='app'>\n\
   <field name='ClOrdID' required='Y'/>\n\
   <component name='Parties' required='N'/>\n\
   <field name='Account' required='N'/>\n\
   <field name='HandlInst' required='Y'/>\n\
   <component name='Instrument' required='Y'/>\n\
   <field name='Side' required='Y'/>\n\
   <field name='TransactTime' required='Y'/>\n\
   <field name='OrderQty' required='Y'/>\n\
   <field name='OrdType' required='Y'/>\n\
   <field name='Price' required='N'/>\n\
   <field name='Currency' required='N'/>\n\
   <field name='TimeInForce' required='N'/>\n\
   <field name='Text' required='N'/>\n\
  </message>\n\
  <message name='OrderCancelRequest' msgtype='F' msgcat='app'>\n\
   <field name='OrigClOrdID' required='Y'/>\n\
   <field name='OrderID' required='N'/>\n\
   <field name='ClOrdID' required='Y'/>\n\
   <component name='Parties' required='N'/>\n\
   <component name='Instrument' required='Y'/>\n\
   <field name='Side' required='Y'/>\n\
   <field name='OrderQty' required='Y'/>\n\
   <field name='Text' required='N'/>\n\
  </message>\n\
  <message name='MarketDataRequest' msgtype='V' msgcat='app'>\n\
   <field name='MDReqID' required='Y'/>\n\
   <field name='SubscriptionRequestType' required='Y'/>\n\
   <field name='MarketDepth' required='Y'/>\n\
   <group name='NoMDEntryTypes' required='Y'>\n\
    <field name='MDEntryType' required='Y'/>\n\
   </group>\n\
   <group name='NoRelatedSym' required='Y'>\n\
    <field name='Symbol' required='Y'/>\n\
    <field name='SecurityID' required='N'/>\n\
    <field name='SecurityIDSource' required='N'/>\n\
    <field name='SecurityType' required='N'/>\n\
    <field name='SecurityExchange' required='N'/>\n\
   </group>\n\
  </message>\n\
  <message name='MarketDataSnapshotFullRefresh' msgtype='W' msgcat='app'>\n\
   <field name='MDReqID' required='N'/>\n\
   <component name='Instrument' required='Y'/>\n\
   <group name='NoMDEntries' required='Y'>\n\
    <field name='MDEntryType' required='Y'/>\n\
    <field name='MDEntryPx' required='N'/>\n\
    <field name='Currency' required='N'/>\n\
    <field name='MDEntrySize' required='N'/>\n\
    <field name='MDEntryDate' required='N'/>\n\
    <field name='MDEntryTime' required='N'/>\n\
    <field name='Text' required='N'/>\n\
   </group>\n\
  </message>\n\
 </messages>\n\
 <trailer>\n\
  <field name='SignatureLength' required='N'/>\n\
  <field name='Signature' required='N'/>\n\
  <field name='CheckSum' required='Y'/>\n\
 </trailer>\n\
 <components>\n\
  <component name='Instrument'>\n\
   <field name='Symbol' required='Y'/>\n\
   <field name='SecurityID' required='N'/>\n\
   <field name='SecurityIDSource' required='N'/>\n\
   <field name='SecurityType' required='N'/>\n\
   <field name='SecurityExchange' required='N'/>\n\
  </component>\n\
  <component name='Parties'>\n\
   <group name='NoPartyIDs' required='N'>\n\
    <field name='PartyID' required='N'/>\n\
    <field name='PartyIDSource' required='N'/>\n\
    <field name='PartyRole' required='N'/>\n\
   </group>\n\
  </component>\n\
 </components>\n\
 <fields>\n\
  <field number='1' name='Account' type='STRING'/>\n\
  <field number='6' name='AvgPx' type='PRICE'/>\n\
  <field number='7' name='BeginSeqNo' type='SEQNUM'/>\n\
  <field number='8' name='BeginString' type='STRING'/>\n\
  <field number='9' name='BodyLength' type='LENGTH'/>\n\
  <field number='10' name='CheckSum' type='STRING'/>\n\
  <field number='11' name='ClOrdID' type='STRING'/>\n\
  <field number='14' name='CumQty' type='QTY'/>\n\
  <field number='15' name='Currency' type='CURRENCY'/>\n\
  <field number='16' name='EndSeqNo' type='SEQNUM'/>\n\
  <field number='17' name='ExecID' type='STRING'/>\n\
  <field number='21' name='HandlInst' type='CHAR'>\n\
   <value enum='1' description='AUTOMATED_EXECUTION_ORDER_PRIVATE'/>\n\
   <value enum='2' description='AUTOMATED_EXECUTION_ORDER_PUBLIC'/>\n\
   <value enum='3' description='MANUAL_ORDER'/>\n\
  </field>\n\
  <field number='22' name='SecurityIDSource' type='STRING'>\n\
   <value enum='1' description='CUSIP'/>\n\
   <value enum='2' description='SEDOL'/>\n\
   <value enum='4' description='ISIN_NUMBER'/>\n\
   <value enum='8' description='EXCHANGE_SYMBOL'/>\n\
  </field>\n\
  <field number='34' name='MsgSeqNum' type='SEQNUM'/>\n\
  <field number='35' name='MsgType' type='STRING'>\n\
   <value enum='0' description='HEARTBEAT'/>\n\
   <value enum='1' description='TESTREQUEST'/>\n\
   <value enum='2' description='RESENDREQUEST'/>\n\
   <value enum='3' description='REJECT'/>\n\
   <value enum='4' description='SEQUENCERESET'/>\n\
   <value enum='5' description='LOGOUT'/>\n\
   <value enum='A' description='LOGON'/>\n\
   <value enum='8' description='EXECUTIONREPORT'/>\n\
   <value enum='D' description='NEWORDERSINGLE'/>\n\
   <value enum='F' description='ORDERCANCELREQUEST'/>\n\
   <value enum='V' description='MARKETDATAREQUEST'/>\n\
   <value enum='W' description='MARKETDATASNAPSHOTFULLREFRESH'/>\n\
  </field>\n\
  <field number='36' name='NewSeqNo' type='SEQNUM'/>\n\
  <field number='37' name='OrderID' type='STRING'/>\n\
  <field number='38' name='OrderQty' type='QTY'/>\n\
  <field number='39' name='OrdStatus' type='CHAR'>\n\
   <value enum='0' description='NEW'/>\n\
   <value enum='1' description='PARTIALLY_FILLED'/>\n\
   <value enum='2' description='FILLED'/>\n\
   <value enum='4' description='CANCELED'/>\n\
   <value enum='8' description='REJECTED'/>\n\
  </field>\n\
  <field number='40' name='OrdType' type='CHAR'>\n\
   <value enum='1' description='MARKET'/>\n\
   <value enum='2' description='LIMIT'/>\n\
   <value enum='3' description='STOP'/>\n\
  </field>\n\
  <field number='41' name='OrigClOrdID' type='STRING'/>\n\
  <field number='43' name='PossDupFlag' type='BOOLEAN'/>\n\
  <field number='44' name='Price' type='PRICE'/>\n\
  <field number='45' name='RefSeqNum' type='SEQNUM'/>\n\
  <field number='48' name='SecurityID' type='STRING'/>\n\
  <field number='49' name='SenderCompID' type='STRING'/>\n\
  <field number='50' name='SenderSubID' type='STRING'/>\n\
  <field number='52' name='SendingTime' type='UTCTIMESTAMP'/>\n\
  <field number='54' name='Side' type='CHAR'>\n\
   <value enum='1' description='BUY'/>\n\
   <value enum='2' description='SELL'/>\n\
  </field>\n\
  <field number='55' name='Symbol' type='STRING'/>\n\
  <field number='56' name='TargetCompID' type='STRING'/>\n\
  <field number='57' name='TargetSubID' type='STRING'/>\n\
  <field number='58' name='Text' type='STRING'/>\n\
  <field number='59' name='TimeInForce' type='CHAR'>\n\
   <value enum='0' description='DAY'/>\n\
   <value enum='1' description='GOOD_TILL_CANCEL'/>\n\
   <value enum='3' description='IMMEDIATE_OR_CANCEL'/>\n\
  </field>\n\
  <field number='60' name='TransactTime' type='UTCTIMESTAMP'/>\n\
  <field number='89' name='Signature' type='DATA'/>\n\
  <field number='90' name='SecureDataLen' type='LENGTH'/>\n\
  <field number='91' name='SecureData' type='DATA'/>\n\
  <field number='93' name='SignatureLength' type='LENGTH'/>\n\
  <field number='95' name='RawDataLength' type='LENGTH'/>\n\
  <field number='96' name='RawData' type='DATA'/>\n\
  <field number='97' name='PossResend' type='BOOLEAN'/>\n\
  <field number='98' name='EncryptMethod' type='INT'>\n\
   <value enum='0' description='NONE'/>\n\
  </field>\n\
  <field number='108' name='HeartBtInt' type='INT'/>\n\
  <field number='112' name='TestReqID' type='STRING'/>\n\
  <field number='115' name='OnBehalfOfCompID' type='STRING'/>\n\
  <field number='122' name='OrigSendingTime' type='UTCTIMESTAMP'/>\n\
  <field number='123' name='GapFillFlag' type='BOOLEAN'/>\n\
  <field number='128' name='DeliverToCompID' type='STRING'/>\n\
  <field number='141' name='ResetSeqNumFlag' type='BOOLEAN'/>\n\
  <field number='146' name='NoRelatedSym' type='NUMINGROUP'/>\n\
  <field number='150' name='ExecType' type='CHAR'>\n\
   <value enum='0' description='NEW'/>\n\
   <value enum='4' description='CANCELED'/>\n\
   <value enum='8' description='REJECTED'/>\n\
   <value enum='F' description='TRADE'/>\n\
  </field>\n\
  <field number='151' name='LeavesQty' type='QTY'/>\n\
  <field number='167' name='SecurityType' type='STRING'/>\n\
  <field number='207' name='SecurityExchange' type='EXCHANGE'/>\n\
  <field number='212' name='XmlDataLen' type='LENGTH'/>\n\
  <field number='213' name='XmlData' type='XMLDATA'/>\n\
  <field number='262' name='MDReqID' type='STRING'/>\n\
  <field number='263' name='SubscriptionRequestType' type='CHAR'>\n\
   <value enum='0' description='SNAPSHOT'/>\n\
   <value enum='1' description='SNAPSHOT_PLUS_UPDATES'/>\n\
   <value enum='2' description='DISABLE_PREVIOUS_SNAPSHOT_PLUS_UPDATE_REQUEST'/>\n\
  </field>\n\
  <field number='264' name='MarketDepth' type='INT'/>\n\
  <field number='267' name='NoMDEntryTypes' type='NUMINGROUP'/>\n\
  <field number='268' name='NoMDEntries' type='NUMINGROUP'/>\n\
  <field number='269' name='MDEntryType' type='CHAR'>\n\
   <value enum='0' description='BID'/>\n\
   <value enum='1' description='OFFER'/>\n\
   <value enum='2' description='TRADE'/>\n\
  </field>\n\
  <field number='270' name='MDEntryPx' type='PRICE'/>\n\
  <field number='271' name='MDEntrySize' type='QTY'/>\n\
  <field number='272' name='MDEntryDate' type='UTCDATE'/>\n\
  <field number='273' name='MDEntryTime' type='UTCTIMEONLY'/>\n\
  <field number='347' name='MessageEncoding' type='STRING'/>\n\
  <field number='369' name='LastMsgSeqNumProcessed' type='SEQNUM'/>\n\
  <field number='371' name='RefTagID' type='INT'/>\n\
  <field number='372' name='RefMsgType' type='STRING'/>\n\
  <field number='373' name='SessionRejectReason' type='INT'/>\n\
  <field number='383' name='MaxMessageSize' type='LENGTH'/>\n\
  <field number='384' name='NoMsgTypes' type='NUMINGROUP'/>\n\
  <field number='385' name='MsgDirection' type='CHAR'>\n\
   <value enum='R' description='RECEIVE'/>\n\
   <value enum='S' description='SEND'/>\n\
  </field>\n\
  <field number='447' name='PartyIDSource' type='CHAR'/>\n\
  <field number='448' name='PartyID' type='STRING'/>\n\
  <field number='452' name='PartyRole' type='INT'/>\n\
  <field number='453' name='NoPartyIDs' type='NUMINGROUP'/>\n\
  <field number='627' name='NoHops' type='NUMINGROUP'/>\n\
  <field number='628' name='HopCompID' type='STRING'/>\n\
  <field number='629' name='HopSendingTime' type='UTCTIMESTAMP'/>\n\
  <field number='630' name='HopRefID' type='SEQNUM'/>\n\
 </fields>\n\
</fix>\n\
";

/// The dictionary of FIX 4.4, after the line that opens its root element.
pub const QUICKFIX_FIX44: &'static str = "\
 <header>\n\
  <field name='BeginString' required='Y'/>\n\
  <field name='BodyLength' required='Y'/>\n\
  <field name='MsgType' required='Y'/>\n\
  <field name='SenderCompID' required='Y'/>\n\
  <field name='TargetCompID' required='Y'/>\n\
  <field name='OnBehalfOfCompID' required='N'/>\n\
  <field name='DeliverToCompID' required='N'/>\n\
  <field name='SecureDataLen' required='N'/>\n\
  <field name='SecureData' required='N'/>\n\
  <field name='MsgSeqNum' required='Y'/>\n\
  <field name='SenderSubID' required='N'/>\n\
  <field name='TargetSubID' required='N'/>\n\
  <field name='PossDupFlag' required='N'/>\n\
  <field name='PossResend' required='N'/>\n\
  <field name='SendingTime' required='Y'/>\n\
  <field name='OrigSendingTime' required='N'/>\n\
  <field name='XmlDataLen' required='N'/>\n\
  <field name='XmlData' required='N'/>\n\
  <field name='MessageEncoding' required='N'/>\n\
  <field name='LastMsgSeqNumProcessed' required='N'/>\n\
  <group name='NoHops' required='N'>\n\
   <field name='HopCompID' required='N'/>\n\
   <field name='HopSendingTime' required='N'/>\n\
   <field name='HopRefID' required='N'/>\n\
  </group>\n\
 </header>\n\
 <messages>\n\
  <message name='Heartbeat' msgtype='0' msgcat='admin'>\n\
   <field name='TestReqID' required='N'/>\n\
  </message>\n\
  <message name='TestRequest' msgtype='1' msgcat='admin'>\n\
   <field name='TestReqID' required='Y'/>\n\
  </message>\n\
  <message name='ResendRequest' msgtype='2' msgcat='admin'>\n\
   <field name='BeginSeqNo' required='Y'/>\n\
   <field name='EndSeqNo' required='Y'/>\n\
  </message>\n\
  <message name='Reject' msgtype='3' msgcat='admin'>\n\
   <field name='RefSeqNum' required='Y'/>\n\
   <field name='RefTagID' required='N'/>\n\
   <field name='RefMsgType' required='N'/>\n\
   <field name='SessionRejectReason' required='N'/>\n\
   <field name='Text' required='N'/>\n\
  </message>\n\
  <message name='SequenceReset' msgtype='4' msgcat='admin'>\n\
   <field name='GapFillFlag' required='N'/>\n\
   <field name='NewSeqNo' required='Y'/>\n\
  </message>\n\
  <message name='Logout' msgtype='5' msgcat='admin'>\n\
   <field name='Text' required='N'/>\n\
  </message>\n\
  <message name='Logon' msgtype='A' msgcat='admin'>\n\
   <field name='EncryptMethod' required='Y'/>\n\
   <field name='HeartBtInt' required='Y'/>\n\
   <field name='RawDataLength' required='N'/>\n\
   <field name='RawData' required='N'/>\n\
   <field name='ResetSeqNumFlag' required='N'/>\n\
   <field name='MaxMessageSize' required='N'/>\n\
   <group name='NoMsgTypes' required='N'>\n\
    <field name='RefMsgType' required='N'/>\n\
    <field name='MsgDirection' required='N'/>\n\
   </group>\n\
   <field name='NextExpectedMsgSeqNum' required='N'/>\n\
   <field name='TestMessageIndicator' required='N'/>\n\
   <field name='Username' required='N'/>\n\
   <field name='Password' required='N'/>\n\
  </message>\n\
  <message name='ExecutionReport' msgtype='8' msgcat='app'>\n\
   <field name='OrderID' required='Y'/>\n\
   <field name='ClOrdID' required='N'/>\n\
   <field name='OrigClOrdID' required='N'/>\n\
   <component name='Parties' required='N'/>\n\
   <field name='ExecID' required='Y'/>\n\
   <field name='ExecType' required='Y'/>\n\
   <field name='OrdStatus' required='Y'/>\n\
   <field name='Account' required='N'/>\n\
   <component name='Instrument' required='Y'/>\n\
   <field name='Side' required='Y'/>\n\
   <field name='OrderQty' required='N'/>\n\
   <field name='Price' required='N'/>\n\
   <field name='LeavesQty' required='Y'/>\n\
   <field name='CumQty' required='Y'/>\n\
   <field name='AvgPx' required='Y'/>\n\
   <field name='TransactTime' required='N'/>\n\
   <field name='Text' required='N'/>\n\
  </message>\n\
  <message name='NewOrderSingle' msgtype='D' msgcat='app'>\n\
   <field name='ClOrdID' required='Y'/>\n\
   <component name='Parties' required='N'/>\n\
   <field name='Account' required='N'/>\n\
   <field name='HandlInst' required='Y'/>\n\
   <component name='Instrument' required='Y'/>\n\
   <field name='Side' required='Y'/>\n\
   <field name='TransactTime' required='Y'/>\n\
   <field name='OrderQty' required='Y'/>\n\
   <field name='OrdType' required='Y'/>\n\
   <field name='Price' required='N'/>\n\
   <field name='Currency' required='N'/>\n\
   <field name='TimeInForce' required='N'/>\n\
   <field name='Text' required='N'/>\n\
  </message>\n\
  <message name='OrderCancelRequest' msgtype='F' msgcat='app'>\n\
   <field name='OrigClOrdID' required='Y'/>\n\
   <field name='OrderID' required='N'/>\n\
   <field name='ClOrdID' required='Y'/>\n\
   <component name='Parties' required='N'/>\n\
   <component name='Instrument' required='Y'/>\n\
   <field name='Side' required='Y'/>\n\
   <field name='OrderQty' required='Y'/>\n\
   <field name='Text' required='N'/>\n\
  </message>\n\
  <message name='MarketDataRequest' msgtype='V' msgcat='app'>\n\
   <field name='MDReqID' required='Y'/>\n\
   <field name='SubscriptionRequestType' required='Y'/>\n\
   <field name='MarketDepth' required='Y'/>\n\
   <group name='NoMDEntryTypes' required='Y'>\n\
    <field name='MDEntryType' required='Y'/>\n\
   </group>\n\
   <group name='NoRelatedSym' required='Y'>\n\
    <field name='Symbol' required='Y'/>\n\
    <field name='SecurityID' required='N'/>\n\
    <field name='SecurityIDSource' required='N'/>\n\
    <field name='SecurityType' required='N'/>\n\
    <field name='SecurityExchange' required='N'/>\n\
   </group>\n\
  </message>\n\
  <message name='MarketDataSnapshotFullRefresh' msgtype='W' msgcat='app'>\n\
   <field name='MDReqID' required='N'/>\n\
   <component name='Instrument' required='Y'/>\n\
   <group name='NoMDEntries' required='Y'>\n\
    <field name='MDEntryType' required='Y'/>\n\
    <field name='MDEntryPx' required='N'/>\n\
    <field name='Currency' required='N'/>\n\
    <field name='MDEntrySize' required='N'/>\n\
    <field name='MDEntryDate' required='N'/>\n\
    <field name='MDEntryTime' required='N'/>\n\
    <field name='Text' required='N'/>\n\
   </group>\n\
  </message>\n\
 </messages>\n\
 <trailer>\n\
  <field name='SignatureLength' required='N'/>\n\
  <field name='Signature' required='N'/>\n\
  <field name='CheckSum' required='Y'/>\n\
 </trailer>\n\
 <components>\n\
  <component name='Instrument'>\n\
   <field name='Symbol' required='Y'/>\n\
   <field name='SecurityID' required='N'/>\n\
   <field name='SecurityIDSource' required='N'/>\n\
   <field name='SecurityType' required='N'/>\n\
   <field name='SecurityExchange' required='N'/>\n\
  </component>\n\
  <component name='Parties'>\n\
   <group name='NoPartyIDs' required='N'>\n\
    <field name='PartyID' required='N'/>\n\
    <field name='PartyIDSource' required='N'/>\n\
    <field name='PartyRole' required='N'/>\n\
   </group>\n\
  </component>\n\
 </components>\n\
 <fields>\n\
  <field number='1' name='Account' type='STRING'/>\n\
  <field number='6' name='AvgPx' type='PRICE'/>\n\
  <field number='7' name='BeginSeqNo' type='SEQNUM'/>\n\
  <field number='8' name='BeginString' type='STRING'/>\n\
  <field number='9' name='BodyLength' type='LENGTH'/>\n\
  <field number='10' name='CheckSum' type='STRING'/>\n\
  <field number='11' name='ClOrdID' type='STRING'/>\n\
  <field number='14' name='CumQty' type='QTY'/>\n\
  <field number='15' name='Currency' type='CURRENCY'/>\n\
  <field number='16' name='EndSeqNo' type='SEQNUM'/>\n\
  <field number='17' name='ExecID' type='STRING'/>\n\
  <field number='21' name='HandlInst' type='CHAR'>\n\
   <value enum='1' description='AUTOMATED_EXECUTION_ORDER_PRIVATE'/>\n\
   <value enum='2' description='AUTOMATED_EXECUTION_ORDER_PUBLIC'/>\n\
   <value enum='3' description='MANUAL_ORDER'/>\n\
  </field>\n\
  <field number='22' name='SecurityIDSource' type='STRING'>\n\
   <value enum='1' description='CUSIP'/>\n\
   <value enum='2' description='SEDOL'/>\n\
   <value enum='4' description='ISIN_NUMBER'/>\n\
   <value enum='8' description='EXCHANGE_SYMBOL'/>\n\
  </field>\n\
  <field number='34' name='MsgSeqNum' type='SEQNUM'/>\n\
  <field number='35' name='MsgType' type='STRING'>\n\
   <value enum='0' description='HEARTBEAT'/>\n\
   <value enum='1' description='TESTREQUEST'/>\n\
   <value enum='2' description='RESENDREQUEST'/>\n\
   <value enum='3' description='REJECT'/>\n\
   <value enum='4' description='SEQUENCERESET'/>\n\
   <value enum='5' description='LOGOUT'/>\n\
   <value enum='A' description='LOGON'/>\n\
   <value enum='8' description='EXECUTIONREPORT'/>\n\
   <value enum='D' description='NEWORDERSINGLE'/>\n\
   <value enum='F' description='ORDERCANCELREQUEST'/>\n\
   <value enum='V' description='MARKETDATAREQUEST'/>\n\
   <value enum='W' description='MARKETDATASNAPSHOTFULLREFRESH'/>\n\
  </field>\n\
  <field number='36' name='NewSeqNo' type='SEQNUM'/>\n\
  <field number='37' name='OrderID' type='STRING'/>\n\
  <field number='38' name='OrderQty' type='QTY'/>\n\
  <field number='39' name='OrdStatus' type='CHAR'>\n\
   <value enum='0' description='NEW'/>\n\
   <value enum='1' description='PARTIALLY_FILLED'/>\n\
   <value enum='2' description='FILLED'/>\n\
   <value enum='4' description='CANCELED'/>\n\
   <value enum='8' description='REJECTED'/>\n\
  </field>\n\
  <field number='40' name='OrdType' type='CHAR'>\n\
   <value enum='1' description='MARKET'/>\n\
   <value enum='2' description='LIMIT'/>\n\
   <value enum='3' description='STOP'/>\n\
  </field>\n\
  <field number='41' name='OrigClOrdID' type='STRING'/>\n\
  <field number='43' name='PossDupFlag' type='BOOLEAN'/>\n\
  <field number='44' name='Price' type='PRICE'/>\n\
  <field number='45' name='RefSeqNum' type='SEQNUM'/>\n\
  <field number='48' name='SecurityID' type='STRING'/>\n\
  <field number='49' name='SenderCompID' type='STRING'/>\n\
  <field number='50' name='SenderSubID' type='STRING'/>\n\
  <field number='52' name='SendingTime' type='UTCTIMESTAMP'/>\n\
  <field number='54' name='Side' type='CHAR'>\n\
   <value enum='1' description='BUY'/>\n\
   <value enum='2' description='SELL'/>\n\
  </field>\n\
  <field number='55' name='Symbol' type='STRING'/>\n\
  <field number='56' name='TargetCompID' type='STRING'/>\n\
  <field number='57' name='TargetSubID' type='STRING'/>\n\
  <field number='58' name='Text' type='STRING'/>\n\
  <field number='59' name='TimeInForce' type='CHAR'>\n\
   <value enum='0' description='DAY'/>\n\
   <value enum='1' description='GOOD_TILL_CANCEL'/>\n\
   <value enum='3' description='IMMEDIATE_OR_CANCEL'/>\n\
  </field>\n\
  <field number='60' name='TransactTime' type='UTCTIMESTAMP'/>\n\
  <field number='89' name='Signature' type='DATA'/>\n\
  <field number='90' name='SecureDataLen' type='LENGTH'/>\n\
  <field number='91' name='SecureData' type='DATA'/>\n\
  <field number='93' name='SignatureLength' type='LENGTH'/>\n\
  <field number='95' name='RawDataLength' type='LENGTH'/>\n\
  <field number='96' name='RawData' type='DATA'/>\n\
  <field number='97' name='PossResend' type='BOOLEAN'/>\n\
  <field number='98' name='EncryptMethod' type='INT'>\n\
   <value enum='0' description='NONE'/>\n\
  </field>\n\
  <field number='108' name='HeartBtInt' type='INT'/>\n\
  <field number='112' name='TestReqID' type='STRING'/>\n\
  <field number='115' name='OnBehalfOfCompID' type='STRING'/>\n\
  <field number='122' name='OrigSendingTime' type='UTCTIMESTAMP'/>\n\
  <field number='123' name='GapFillFlag' type='BOOLEAN'/>\n\
  <field number='128' name='DeliverToCompID' type='STRING'/>\n\
  <field number='141' name='ResetSeqNumFlag' type='BOOLEAN'/>\n\
  <field number='146' name='NoRelatedSym' type='NUMINGROUP'/>\n\
  <field number='150' name='ExecType' type='CHAR'>\n\
   <value enum='0' description='NEW'/>\n\
   <value enum='4' description='CANCELED'/>\n\
   <value enum='8' description='REJECTED'/>\n\
   <value enum='F' description='TRADE'/>\n\
  </field>\n\
  <field number='151' name='LeavesQty' type='QTY'/>\n\
  <field number='167' name='SecurityType' type='STRING'/>\n\
  <field number='207' name='SecurityExchange' type='EXCHANGE'/>\n\
  <field number='212' name='XmlDataLen' type='LENGTH'/>\n\
  <field number='213' name='XmlData' type='XMLDATA'/>\n\
  <field number='262' name='MDReqID' type='STRING'/>\n\
  <field number='263' name='SubscriptionRequestType' type='CHAR'>\n\
   <value enum='0' description='SNAPSHOT'/>\n\
   <value enum='1' description='SNAPSHOT_PLUS_UPDATES'/>\n\
   <value enum='2' description='DISABLE_PREVIOUS_SNAPSHOT_PLUS_UPDATE_REQUEST'/>\n\
  </field>\n\
  <field number='264' name='MarketDepth' type='INT'/>\n\
  <field number='267' name='NoMDEntryTypes' type='NUMINGROUP'/>\n\
  <field number='268' name='NoMDEntries' type='NUMINGROUP'/>\n\
  <field number='269' name='MDEntryType' type='CHAR'>\n\
   <value enum='0' description='BID'/>\n\
   <value enum='1' description='OFFER'/>\n\
   <value enum='2' description='TRADE'/>\n\
  </field>\n\
  <field number='270' name='MDEntryPx' type='PRICE'/>\n\
  <field number='271' name='MDEntrySize' type='QTY'/>\n\
  <field number='272' name='MDEntryDate' type='UTCDATE'/>\n\
  <field number='273' name='MDEntryTime' type='UTCTIMEONLY'/>\n\
  <field number='347' name='MessageEncoding' type='STRING'/>\n\
  <field number='369' name='LastMsgSeqNumProcessed' type='SEQNUM'/>\n\
  <field number='371' name='RefTagID' type='INT'/>\n\
  <field number='372' name='RefMsgType' type='STRING'/>\n\
  <field number='373' name='SessionRejectReason' type='INT'/>\n\
  <field number='383' name='MaxMessageSize' type='LENGTH'/>\n\
  <field number='384' name='NoMsgTypes' type='NUMINGROUP'/>\n\
  <field number='385' name='MsgDirection' type='CHAR'>\n\
   <value enum='R' description='RECEIVE'/>\n\
   <value enum='S' description='SEND'/>\n\
  </field>\n\
  <field number='447' name='PartyIDSource' type='CHAR'/>\n\
  <field number='448' name='PartyID' type='STRING'/>\n\
  <field number='452' name='PartyRole' type='INT'/>\n\
  <field number='453' name='NoPartyIDs' type='NUMINGROUP'/>\n\
  <field number='464' name='TestMessageIndicator' type='BOOLEAN'/>\n\
  <field number='553' name='Username' type='STRING'/>\n\
  <field number='554' name='Password' type='STRING'/>\n\
  <field number='627' name='NoHops' type='NUMINGROUP'/>\n\
  <field number='628' name='HopCompID' type='STRING'/>\n\
  <field number='629' name='HopSendingTime' type='UTCTIMESTAMP'/>\n\
  <field number='630' name='HopRefID' type='SEQNUM'/>\n\
  <field number='789' name='NextExpectedMsgSeqNum' type='SEQNUM'/>\n\
 </fields>\n\
</fix>\n\
";

/// The dictionary of FIX 5.0, after the line that opens its root element.
pub const QUICKFIX_FIX50: &'static str = "\
 <header>\n\
  <field name='BeginString' required='Y'/>\n\
  <field name='BodyLength' required='Y'/>\n\
  <field name='MsgType' required='Y'/>\n\
  <field name='SenderCompID' required='Y'/>\n\
  <field name='TargetCompID' required='Y'/>\n\
  <field name='ApplVerID' required='N'/>\n\
  <field name='OnBehalfOfCompID' required='N'/>\n\
  <field name='DeliverToCompID' required='N'/>\n\
  <field name='SecureDataLen' required='N'/>\n\
  <field name='SecureData' required='N'/>\n\
  <field name='MsgSeqNum' required='Y'/>\n\
  <field name='SenderSubID' required='N'/>\n\
  <field name='TargetSubID' required='N'/>\n\
  <field name='PossDupFlag' required='N'/>\n\
  <field name='PossResend' required='N'/>\n\
  <field name='SendingTime' required='Y'/>\n\
  <field name='OrigSendingTime' required='N'/>\n\
  <field name='XmlDataLen' required='N'/>\n\
  <field name='XmlData' required='N'/>\n\
  <field name='MessageEncoding' required='N'/>\n\
  <field name='LastMsgSeqNumProcessed' required='N'/>\n\
  <group name='NoHops' required='N'>\n\
   <field name='HopCompID' required='N'/>\n\
   <field name='HopSendingTime' required='N'/>\n\
   <field name='HopRefID' required='N'/>\n\
  </group>\n\
 </header>\n\
 <messages>\n\
  <message name='ExecutionReport' msgtype='8' msgcat='app'>\n\
   <field name='OrderID' required='Y'/>\n\
   <field name='ClOrdID' required='N'/>\n\
   <field name='OrigClOrdID' required='N'/>\n\
   <component name='Parties' required='N'/>\n\
   <field name='ExecID' required='Y'/>\n\
   <field name='ExecType' required='Y'/>\n\
   <field name='OrdStatus' required='Y'/>\n\
   <field name='Account' required='N'/>\n\
   <component name='Instrument' required='Y'/>\n\
   <field name='Side' required='Y'/>\n\
   <field name='OrderQty' required='N'/>\n\
   <field name='Price' required='N'/>\n\
   <field name='LeavesQty' required='Y'/>\n\
   <field name='CumQty' required='Y'/>\n\
   <field name='AvgPx' required='Y'/>\n\
   <field name='TransactTime' required='N'/>\n\
   <field name='Text' required='N'/>\n\
  </message>\n\
  <message name='NewOrderSingle' msgtype='D' msgcat='app'>\n\
   <field name='ClOrdID' required='Y'/>\n\
   <component name='Parties' required='N'/>\n\
   <field name='Account' required='N'/>\n\
   <field name='HandlInst' required='Y'/>\n\
   <component name='Instrument' required='Y'/>\n\
   <field name='Side' required='Y'/>\n\
   <field name='TransactTime' required='Y'/>\n\
   <field name='OrderQty' required='Y'/>\n\
   <field name='OrdType' required='Y'/>\n\
   <field name='Price' required='N'/>\n\
   <field name='Currency' required='N'/>\n\
   <field name='TimeInForce' required='N'/>\n\
   <field name='Text' required='N'/>\n\
  </message>\n\
  <message name='OrderCancelRequest' msgtype='F' msgcat='app'>\n\
   <field name='OrigClOrdID' required='Y'/>\n\
   <field name='OrderID' required='N'/>\n\
   <field name='ClOrdID' required='Y'/>\n\
   <component name='Parties' required='N'/>\n\
   <component name='Instrument' required='Y'/>\n\
   <field name='Side' required='Y'/>\n\
   <field name='OrderQty' required='Y'/>\n\
   <field name='Text' required='N'/>\n\
  </message>\n\
  <message name='MarketDataRequest' msgtype='V' msgcat='app'>\n\
   <field name='MDReqID' required='Y'/>\n\
   <field name='SubscriptionRequestType' required='Y'/>\n\
   <field name='MarketDepth' required='Y'/>\n\
   <group name='NoMDEntryTypes' required='Y'>\n\
    <field name='MDEntryType' required='Y'/>\n\
   </group>\n\
   <group name='NoRelatedSym' required='Y'>\n\
    <field name='Symbol' required='Y'/>\n\
    <field name='SecurityID' required='N'/>\n\
    <field name='SecurityIDSource' required='N'/>\n\
    <field name='SecurityType' required='N'/>\n\
    <field name='SecurityExchange' required='N'/>\n\
   </group>\n\
  </message>\n\
  <message name='MarketDataSnapshotFullRefresh' msgtype='W' msgcat='app'>\n\
   <field name='MDReqID' required='N'/>\n\
   <component name='Instrument' required='Y'/>\n\
   <group name='NoMDEntries' required='Y'>\n\
    <field name='MDEntryType' required='Y'/>\n\
    <field name='MDEntryPx' required='N'/>\n\
    <field name='Currency' required='N'/>\n\
    <field name='MDEntrySize' required='N'/>\n\
    <field name='MDEntryDate' required='N'/>\n\
    <field name='MDEntryTime' required='N'/>\n\
    <field name='Text' required='N'/>\n\
   </group>\n\
  </message>\n\
 </messages>\n\
 <trailer>\n\
  <field name='SignatureLength' required='N'/>\n\
  <field name='Signature' required='N'/>\n\
  <field name='CheckSum' required='Y'/>\n\
 </trailer>\n\
 <components>\n\
  <component name='Instrument'>\n\
   <field name='Symbol' required='Y'/>\n\
   <field name='SecurityID' required='N'/>\n\
   <field name='SecurityIDSource' required='N'/>\n\
   <field name='SecurityType' required='N'/>\n\
   <field name='SecurityExchange' required='N'/>\n\
  </component>\n\
  <component name='Parties'>\n\
   <group name='NoPartyIDs' required='N'>\n\
    <field name='PartyID' required='N'/>\n\
    <field name='PartyIDSource' required='N'/>\n\
    <field name='PartyRole' required='N'/>\n\
   </group>\n\
  </component>\n\
 </components>\n\
 <fields>\n\
  <field number='1' name='Account' type='STRING'/>\n\
  <field number='6' name='AvgPx' type='PRICE'/>\n\
  <field number='8' name='BeginString' type='STRING'/>\n\
  <field number='9' name='BodyLength' type='LENGTH'/>\n\
  <field number='10' name='CheckSum' type='STRING'/>\n\
  <field number='11' name='ClOrdID' type='STRING'/>\n\
  <field number='14' name='CumQty' type='QTY'/>\n\
  <field number='15' name='Currency' type='CURRENCY'/>\n\
  <field number='17' name='ExecID' type='STRING'/>\n\
  <field number='21' name='HandlInst' type='CHAR'>\n\
   <value enum='1' description='AUTOMATED_EXECUTION_ORDER_PRIVATE'/>\n\
   <value enum='2' description='AUTOMATED_EXECUTION_ORDER_PUBLIC'/>\n\
   <value enum='3' description='MANUAL_ORDER'/>\n\
  </field>\n\
  <field number='22' name='SecurityIDSource' type='STRING'>\n\
   <value enum='1' description='CUSIP'/>\n\
   <value enum='2' description='SEDOL'/>\n\
   <value enum='4' description='ISIN_NUMBER'/>\n\
   <value enum='8' description='EXCHANGE_SYMBOL'/>\n\
  </field>\n\
  <field number='34' name='MsgSeqNum' type='SEQNUM'/>\n\
  <field number='35' name='MsgType' type='STRING'>\n\
   <value enum='8' description='EXECUTIONREPORT'/>\n\
   <value enum='D' description='NEWORDERSINGLE'/>\n\
   <value enum='F' description='ORDERCANCELREQUEST'/>\n\
   <value enum='V' description='MARKETDATAREQUEST'/>\n\
   <value enum='W' description='MARKETDATASNAPSHOTFULLREFRESH'/>\n\
  </field>\n\
  <field number='37' name='OrderID' type='STRING'/>\n\
  <field number='38' name='OrderQty' type='QTY'/>\n\
  <field number='39' name='OrdStatus' type='CHAR'>\n\
   <value enum='0' description='NEW'/>\n\
   <value enum='1' description='PARTIALLY_FILLED'/>\n\
   <value enum='2' description='FILLED'/>\n\
   <value enum='4' description='CANCELED'/>\n\
   <value enum='8' description='REJECTED'/>\n\
  </field>\n\
  <field number='40' name='OrdType' type='CHAR'>\n\
   <value enum='1' description='MARKET'/>\n\
   <value enum='2' description='LIMIT'/>\n\
   <value enum='3' description='STOP'/>\n\
  </field>\n\
  <field number='41' name='OrigClOrdID' type='STRING'/>\n\
  <field number='43' name='PossDupFlag' type='BOOLEAN'/>\n\
  <field number='44' name='Price' type='PRICE'/>\n\
  <field number='48' name='SecurityID' type='STRING'/>\n\
  <field number='49' name='SenderCompID' type='STRING'/>\n\
  <field number='50' name='SenderSubID' type='STRING'/>\n\
  <field number='52' name='SendingTime' type='UTCTIMESTAMP'/>\n\
  <field number='54' name='Side' type='CHAR'>\n\
   <value enum='1' description='BUY'/>\n\
   <value enum='2' description='SELL'/>\n\
  </field>\n\
  <field number='55' name='Symbol' type='STRING'/>\n\
  <field number='56' name='TargetCompID' type='STRING'/>\n\
  <field number='57' name='TargetSubID' type='STRING'/>\n\
  <field number='58' name='Text' type='STRING'/>\n\
  <field number='59' name='TimeInForce' type='CHAR'>\n\
   <value enum='0' description='DAY'/>\n\
   <value enum='1' description='GOOD_TILL_CANCEL'/>\n\
   <value enum='3' description='IMMEDIATE_OR_CANCEL'/>\n\
  </field>\n\
  <field number='60' name='TransactTime' type='UTCTIMESTAMP'/>\n\
  <field number='89' name='Signature' type='DATA'/>\n\
  <field number='90' name='SecureDataLen' type='LENGTH'/>\n\
  <field number='91' name='SecureData' type='DATA'/>\n\
  <field number='93' name='SignatureLength' type='LENGTH'/>\n\
  <field number='97' name='PossResend' type='BOOLEAN'/>\n\
  <field number='115' name='OnBehalfOfCompID' type='STRING'/>\n\
  <field number='122' name='OrigSendingTime' type='UTCTIMESTAMP'/>\n\
  <field number='128' name='DeliverToCompID' type='STRING'/>\n\
  <field number='146' name='NoRelatedSym' type='NUMINGROUP'/>\n\
  <field number='150' name='ExecType' type='CHAR'>\n\
   <value enum='0' description='NEW'/>\n\
   <value enum='4' description='CANCELED'/>\n\
   <value enum='8' description='REJECTED'/>\n\
   <value enum='F' description='TRADE'/>\n\
  </field>\n\
  <field number='151' name='LeavesQty' type='QTY'/>\n\
  <field number='167' name='SecurityType' type='STRING'/>\n\
  <field number='207' name='SecurityExchange' type='EXCHANGE'/>\n\
  <field number='212' name='XmlDataLen' type='LENGTH'/>\n\
  <field number='213' name='XmlData' type='XMLDATA'/>\n\
  <field number='262' name='MDReqID' type='STRING'/>\n\
  <field number='263' name='SubscriptionRequestType' type='CHAR'>\n\
   <value enum='0' description='SNAPSHOT'/>\n\
   <value enum='1' description='SNAPSHOT_PLUS_UPDATES'/>\n\
   <value enum='2' description='DISABLE_PREVIOUS_SNAPSHOT_PLUS_UPDATE_REQUEST'/>\n\
  </field>\n\
  <field number='264' name='MarketDepth' type='INT'/>\n\
  <field number='267' name='NoMDEntryTypes' type='NUMINGROUP'/>\n\
  <field number='268' name='NoMDEntries' type='NUMINGROUP'/>\n\
  <field number='269' name='MDEntryType' type='CHAR'>\n\
   <value enum='0' description='BID'/>\n\
   <value enum='1' description='OFFER'/>\n\
   <value enum='2' description='TRADE'/>\n\
  </field>\n\
  <field number='270' name='MDEntryPx' type='PRICE'/>\n\
  <field number='271' name='MDEntrySize' type='QTY'/>\n\
  <field number='272' name='MDEntryDate' type='UTCDATE'/>\n\
  <field number='273' name='MDEntryTime' type='UTCTIMEONLY'/>\n\
  <field number='347' name='MessageEncoding' type='STRING'/>\n\
  <field number='369' name='LastMsgSeqNumProcessed' type='SEQNUM'/>\n\
  <field number='447' name='PartyIDSource' type='CHAR'/>\n\
  <field number='448' name='PartyID' type='STRING'/>\n\
  <field number='452' name='PartyRole' type='INT'/>\n\
  <field number='453' name='NoPartyIDs' type='NUMINGROUP'/>\n\
  <field number='627' name='NoHops' type='NUMINGROUP'/>\n\
  <field number='628' name='HopCompID' type='STRING'/>\n\
  <field number='629' name='HopSendingTime' type='UTCTIMESTAMP'/>\n\
  <field number='630' name='HopRefID' type='SEQNUM'/>\n\
  <field number='1128' name='ApplVerID' type='STRING'>\n\
   <value enum='7' description='FIX50'/>\n\
   <value enum='8' description='FIX50SP1'/>\n\
   <value enum='9' description='FIX50SP2'/>\n\
  </field>\n\
 </fields>\n\
</fix>\n\
";

/// The dictionary of FIX 5.0 SP1, after the line that opens its root element.
pub const QUICKFIX_FIX50SP1: &'static str = "\
 <header>\n\
  <field name='BeginString' required='Y'/>\n\
  <field name='BodyLength' required='Y'/>\n\
  <field name='MsgType' required='Y'/>\n\
  <field name='SenderCompID' required='Y'/>\n\
  <field name='TargetCompID' required='Y'/>\n\
  <field name='ApplVerID' required='N'/>\n\
  <field name='CstmApplVerID' required='N'/>\n\
  <field name='OnBehalfOfCompID' required='N'/>\n\
  <field name='DeliverToCompID' required='N'/>\n\
  <field name='SecureDataLen' required='N'/>\n\
  <field name='SecureData' required='N'/>\n\
  <field name='MsgSeqNum' required='Y'/>\n\
  <field name='SenderSubID' required='N'/>\n\
  <field name='TargetSubID' required='N'/>\n\
  <field name='PossDupFlag' required='N'/>\n\
  <field name='PossResend' required='N'/>\n\
  <field name='SendingTime' required='Y'/>\n\
  <field name='OrigSendingTime' required='N'/>\n\
  <field name='XmlDataLen' required='N'/>\n\
  <field name='XmlData' required='N'/>\n\
  <field name='MessageEncoding' required='N'/>\n\
  <field name='LastMsgSeqNumProcessed' required='N'/>\n\
  <group name='NoHops' required='N'>\n\
   <field name='HopCompID' required='N'/>\n\
   <field name='HopSendingTime' required='N'/>\n\
   <field name='HopRefID' required='N'/>\n\
  </group>\n\
 </header>\n\
 <messages>\n\
  <message name='ExecutionReport' msgtype='8' msgcat='app'>\n\
   <field name='OrderID' required='Y'/>\n\
   <field name='ClOrdID' required='N'/>\n\
   <field name='OrigClOrdID' required='N'/>\n\
   <component name='Parties' required='N'/>\n\
   <field name='ExecID' required='Y'/>\n\
   <field name='ExecType' required='Y'/>\n\
   <field name='OrdStatus' required='Y'/>\n\
   <field name='Account' required='N'/>\n\
   <component name='Instrument' required='Y'/>\n\
   <field name='Side' required='Y'/>\n\
   <field name='OrderQty' required='N'/>\n\
   <field name='Price' required='N'/>\n\
   <field name='LeavesQty' required='Y'/>\n\
   <field name='CumQty' required='Y'/>\n\
   <field name='AvgPx' required='Y'/>\n\
   <field name='TransactTime' required='N'/>\n\
   <field name='Text' required='N'/>\n\
  </message>\n\
  <message name='NewOrderSingle' msgtype='D' msgcat='app'>\n\
   <field name='ClOrdID' required='Y'/>\n\
   <component name='Parties' required='N'/>\n\
   <field name='Account' required='N'/>\n\
   <field name='HandlInst' required='Y'/>\n\
   <component name='Instrument' required='Y'/>\n\
   <field name='Side' required='Y'/>\n\
   <field name='TransactTime' required='Y'/>\n\
   <field name='OrderQty' required='Y'/>\n\
   <field name='OrdType' required='Y'/>\n\
   <field name='Price' required='N'/>\n\
   <field name='Currency' required='N'/>\n\
   <field name='TimeInForce' required='N'/>\n\
   <field name='Text' required='N'/>\n\
  </message>\n\
  <message name='OrderCancelRequest' msgtype='F' msgcat='app'>\n\
   <field name='OrigClOrdID' required='Y'/>\n\
   <field name='OrderID' required='N'/>\n\
   <field name='ClOrdID' required='Y'/>\n\
   <component name='Parties' required='N'/>\n\
   <component name='Instrument' required='Y'/>\n\
   <field name='Side' required='Y'/>\n\
   <field name='OrderQty' required='Y'/>\n\
   <field name='Text' required='N'/>\n\
  </message>\n\
  <message name='MarketDataRequest' msgtype='V' msgcat='app'>\n\
   <field name='MDReqID' required='Y'/>\n\
   <field name='SubscriptionRequestType' required='Y'/>\n\
   <field name='MarketDepth' required='Y'/>\n\
   <group name='NoMDEntryTypes' required='Y'>\n\
    <field name='MDEntryType' required='Y'/>\n\
   </group>\n\
   <group name='NoRelatedSym' required='Y'>\n\
    <field name='Symbol' required='Y'/>\n\
    <field name='SecurityID' required='N'/>\n\
    <field name='SecurityIDSource' required='N'/>\n\
    <field name='SecurityType' required='N'/>\n\
    <field name='SecurityExchange' required='N'/>\n\
   </group>\n\
  </message>\n\
  <message name='MarketDataSnapshotFullRefresh' msgtype='W' msgcat='app'>\n\
   <field name='MDReqID' required='N'/>\n\
   <component name='Instrument' required='Y'/>\n\
   <group name='NoMDEntries' required='Y'>\n\
    <field name='MDEntryType' required='Y'/>\n\
    <field name='MDEntryPx' required='N'/>\n\
    <field name='Currency' required='N'/>\n\
    <field name='MDEntrySize' required='N'/>\n\
    <field name='MDEntryDate' required='N'/>\n\
    <field name='MDEntryTime' required='N'/>\n\
    <field name='Text' required='N'/>\n\
   </group>\n\
  </message>\n\
 </messages>\n\
 <trailer>\n\
  <field name='SignatureLength' required='N'/>\n\
  <field name='Signature' required='N'/>\n\
  <field name='CheckSum' required='Y'/>\n\
 </trailer>\n\
 <components>\n\
  <component name='Instrument'>\n\
   <field name='Symbol' required='Y'/>\n\
   <field name='SecurityID' required='N'/>\n\
   <field name='SecurityIDSource' required='N'/>\n\
   <field name='SecurityType' required='N'/>\n\
   <field name='SecurityExchange' required='N'/>\n\
  </component>\n\
  <component name='Parties'>\n\
   <group name='NoPartyIDs' required='N'>\n\
    <field name='PartyID' required='N'/>\n\
    <field name='PartyIDSource' required='N'/>\n\
    <field name='PartyRole' required='N'/>\n\
   </group>\n\
  </component>\n\
 </components>\n\
 <fields>\n\
  <field number='1' name='Account' type='STRING'/>\n\
  <field number='6' name='AvgPx' type='PRICE'/>\n\
  <field number='8' name='BeginString' type='STRING'/>\n\
  <field number='9' name='BodyLength' type='LENGTH'/>\n\
  <field number='10' name='CheckSum' type='STRING'/>\n\
  <field number='11' name='ClOrdID' type='STRING'/>\n\
  <field number='14' name='CumQty' type='QTY'/>\n\
  <field number='15' name='Currency' type='CURRENCY'/>\n\
  <field number='17' name='ExecID' type='STRING'/>\n\
  <field number='21' name='HandlInst' type='CHAR'>\n\
   <value enum='1' description='AUTOMATED_EXECUTION_ORDER_PRIVATE'/>\n\
   <value enum='2' description='AUTOMATED_EXECUTION_ORDER_PUBLIC'/>\n\
   <value enum='3' description='MANUAL_ORDER'/>\n\
  </field>\n\
  <field number='22' name='SecurityIDSource' type='STRING'>\n\
   <value enum='1' description='CUSIP'/>\n\
   <value enum='2' description='SEDOL'/>\n\
   <value enum='4' description='ISIN_NUMBER'/>\n\
   <value enum='8' description='EXCHANGE_SYMBOL'/>\n\
  </field>\n\
  <field number='34' name='MsgSeqNum' type='SEQNUM'/>\n\
  <field number='35' name='MsgType' type='STRING'>\n\
   <value enum='8' description='EXECUTIONREPORT'/>\n\
   <value enum='D' description='NEWORDERSINGLE'/>\n\
   <value enum='F' description='ORDERCANCELREQUEST'/>\n\
   <value enum='V' description='MARKETDATAREQUEST'/>\n\
   <value enum='W' description='MARKETDATASNAPSHOTFULLREFRESH'/>\n\
  </field>\n\
  <field number='37' name='OrderID' type='STRING'/>\n\
  <field number='38' name='OrderQty' type='QTY'/>\n\
  <field number='39' name='OrdStatus' type='CHAR'>\n\
   <value enum='0' description='NEW'/>\n\
   <value enum='1' description='PARTIALLY_FILLED'/>\n\
   <value enum='2' description='FILLED'/>\n\
   <value enum='4' description='CANCELED'/>\n\
   <value enum='8' description='REJECTED'/>\n\
  </field>\n\
  <field number='40' name='OrdType' type='CHAR'>\n\
   <value enum='1' description='MARKET'/>\n\
   <value enum='2' description='LIMIT'/>\n\
   <value enum='3' description='STOP'/>\n\
  </field>\n\
  <field number='41' name='OrigClOrdID' type='STRING'/>\n\
  <field number='43' name='PossDupFlag' type='BOOLEAN'/>\n\
  <field number='44' name='Price' type='PRICE'/>\n\
  <field number='48' name='SecurityID' type='STRING'/>\n\
  <field number='49' name='SenderCompID' type='STRING'/>\n\
  <field number='50' name='SenderSubID' type='STRING'/>\n\
  <field number='52' name='SendingTime' type='UTCTIMESTAMP'/>\n\
  <field number='54' name='Side' type='CHAR'>\n\
   <value enum='1' description='BUY'/>\n\
   <value enum='2' description='SELL'/>\n\
  </field>\n\
  <field number='55' name='Symbol' type='STRING'/>\n\
  <field number='56' name='TargetCompID' type='STRING'/>\n\
  <field number='57' name='TargetSubID' type='STRING'/>\n\
  <field number='58' name='Text' type='STRING'/>\n\
  <field number='59' name='TimeInForce' type='CHAR'>\n\
   <value enum='0' description='DAY'/>\n\
   <value enum='1' description='GOOD_TILL_CANCEL'/>\n\
   <value enum='3' description='IMMEDIATE_OR_CANCEL'/>\n\
  </field>\n\
  <field number='60' name='TransactTime' type='UTCTIMESTAMP'/>\n\
  <field number='89' name='Signature' type='DATA'/>\n\
  <field number='90' name='SecureDataLen' type='LENGTH'/>\n\
  <field number='91' name='SecureData' type='DATA'/>\n\
  <field number='93' name='SignatureLength' type='LENGTH'/>\n\
  <field number='97' name='PossResend' type='BOOLEAN'/>\n\
  <field number='115' name='OnBehalfOfCompID' type='STRING'/>\n\
  <field number='122' name='OrigSendingTime' type='UTCTIMESTAMP'/>\n\
  <field number='128' name='DeliverToCompID' type='STRING'/>\n\
  <field number='146' name='NoRelatedSym' type='NUMINGROUP'/>\n\
  <field number='150' name='ExecType' type='CHAR'>\n\
   <value enum='0' description='NEW'/>\n\
   <value enum='4' description='CANCELED'/>\n\
   <value enum='8' description='REJECTED'/>\n\
   <value enum='F' description='TRADE'/>\n\
  </field>\n\
  <field number='151' name='LeavesQty' type='QTY'/>\n\
  <field number='167' name='SecurityType' type='STRING'/>\n\
  <field number='207' name='SecurityExchange' type='EXCHANGE'/>\n\
  <field number='212' name='XmlDataLen' type='LENGTH'/>\n\
  <field number='213' name='XmlData' type='XMLDATA'/>\n\
  <field number='262' name='MDReqID' type='STRING'/>\n\
  <field number='263' name='SubscriptionRequestType' type='CHAR'>\n\
   <value enum='0' description='SNAPSHOT'/>\n\
   <value enum='1' description='SNAPSHOT_PLUS_UPDATES'/>\n\
   <value enum='2' description='DISABLE_PREVIOUS_SNAPSHOT_PLUS_UPDATE_REQUEST'/>\n\
  </field>\n\
  <field number='264' name='MarketDepth' type='INT'/>\n\
  <field number='267' name='NoMDEntryTypes' type='NUMINGROUP'/>\n\
  <field number='268' name='NoMDEntries' type='NUMINGROUP'/>\n\
  <field number='269' name='MDEntryType' type='CHAR'>\n\
   <value enum='0' description='BID'/>\n\
   <value enum='1' description='OFFER'/>\n\
   <value enum='2' description='TRADE'/>\n\
  </field>\n\
  <field number='270' name='MDEntryPx' type='PRICE'/>\n\
  <field number='271' name='MDEntrySize' type='QTY'/>\n\
  <field number='272' name='MDEntryDate' type='UTCDATE'/>\n\
  <field number='273' name='MDEntryTime' type='UTCTIMEONLY'/>\n\
  <field number='347' name='MessageEncoding' type='STRING'/>\n\
  <field number='369' name='LastMsgSeqNumProcessed' type='SEQNUM'/>\n\
  <field number='447' name='PartyIDSource' type='CHAR'/>\n\
  <field number='448' name='PartyID' type='STRING'/>\n\
  <field number='452' name='PartyRole' type='INT'/>\n\
  <field number='453' name='NoPartyIDs' type='NUMINGROUP'/>\n\
  <field number='627' name='NoHops' type='NUMINGROUP'/>\n\
  <field number='628' name='HopCompID' type='STRING'/>\n\
  <field number='629' name='HopSendingTime' type='UTCTIMESTAMP'/>\n\
  <field number='630' name='HopRefID' type='SEQNUM'/>\n\
  <field number='1128' name='ApplVerID' type='STRING'>\n\
   <value enum='7' description='FIX50'/>\n\
   <value enum='8' description='FIX50SP1'/>\n\
   <value enum='9' description='FIX50SP2'/>\n\
  </field>\n\
  <field number='1129' name='CstmApplVerID' type='STRING'/>\n\
 </fields>\n\
</fix>\n\
";

/// The dictionary of FIX 5.0 SP2, after the line that opens its root element.
pub const QUICKFIX_FIX50SP2: &'static str = "\
 <header>\n\
  <field name='BeginString' required='Y'/>\n\
  <field name='BodyLength' required='Y'/>\n\
  <field name='MsgType' required='Y'/>\n\
  <field name='SenderCompID' required='Y'/>\n\
  <field name='TargetCompID' required='Y'/>\n\
  <field name='ApplVerID' required='N'/>\n\
  <field name='CstmApplVerID' required='N'/>\n\
  <field name='ApplExtID' required='N'/>\n\
  <field name='OnBehalfOfCompID' required='N'/>\n\
  <field name='DeliverToCompID' required='N'/>\n\
  <field name='SecureDataLen' required='N'/>\n\
  <field name='SecureData' required='N'/>\n\
  <field name='MsgSeqNum' required='Y'/>\n\
  <field name='SenderSubID' required='N'/>\n\
  <field name='TargetSubID' required='N'/>\n\
  <field name='PossDupFlag' required='N'/>\n\
  <field name='PossResend' required='N'/>\n\
  <field name='SendingTime' required='Y'/>\n\
  <field name='OrigSendingTime' required='N'/>\n\
  <field name='XmlDataLen' required='N'/>\n\
  <field name='XmlData' required='N'/>\n\
  <field name='MessageEncoding' required='N'/>\n\
  <field name='LastMsgSeqNumProcessed' required='N'/>\n\
  <group name='NoHops' required='N'>\n\
   <field name='HopCompID' required='N'/>\n\
   <field name='HopSendingTime' required='N'/>\n\
   <field name='HopRefID' required='N'/>\n\
  </group>\n\
 </header>\n\
 <messages>\n\
  <message name='ExecutionReport' msgtype='8' msgcat='app'>\n\
   <field name='OrderID' required='Y'/>\n\
   <field name='ClOrdID' required='N'/>\n\
   <field name='OrigClOrdID' required='N'/>\n\
   <component name='Parties' required='N'/>\n\
   <field name='ExecID' required='Y'/>\n\
   <field name='ExecType' required='Y'/>\n\
   <field name='OrdStatus' required='Y'/>\n\
   <field name='Account' required='N'/>\n\
   <component name='Instrument' required='Y'/>\n\
   <field name='Side' required='Y'/>\n\
   <field name='OrderQty' required='N'/>\n\
   <field name='Price' required='N'/>\n\
   <field name='LeavesQty' required='Y'/>\n\
   <field name='CumQty' required='Y'/>\n\
   <field name='AvgPx' required='Y'/>\n\
   <field name='TransactTime' required='N'/>\n\
   <field name='Text' required='N'/>\n\
  </message>\n\
  <message name='NewOrderSingle' msgtype='D' msgcat='app'>\n\
   <field name='ClOrdID' required='Y'/>\n\
   <component name='Parties' required='N'/>\n\
   <field name='Account' required='N'/>\n\
   <field name='HandlInst' required='Y'/>\n\
   <component name='Instrument' required='Y'/>\n\
   <field name='Side' required='Y'/>\n\
   <field name='TransactTime' required='Y'/>\n\
   <field name='OrderQty' required='Y'/>\n\
   <field name='OrdType' required='Y'/>\n\
   <field name='Price' required='N'/>\n\
   <field name='Currency' required='N'/>\n\
   <field name='TimeInForce' required='N'/>\n\
   <field name='Text' required='N'/>\n\
  </message>\n\
  <message name='OrderCancelRequest' msgtype='F' msgcat='app'>\n\
   <field name='OrigClOrdID' required='Y'/>\n\
   <field name='OrderID' required='N'/>\n\
   <field name='ClOrdID' required='Y'/>\n\
   <component name='Parties' required='N'/>\n\
   <component name='Instrument' required='Y'/>\n\
   <field name='Side' required='Y'/>\n\
   <field name='OrderQty' required='Y'/>\n\
   <field name='Text' required='N'/>\n\
  </message>\n\
  <message name='MarketDataRequest' msgtype='V' msgcat='app'>\n\
   <field name='MDReqID' required='Y'/>\n\
   <field name='SubscriptionRequestType' required='Y'/>\n\
   <field name='MarketDepth' required='Y'/>\n\
   <group name='NoMDEntryTypes' required='Y'>\n\
    <field name='MDEntryType' required='Y'/>\n\
   </group>\n\
   <group name='NoRelatedSym' required='Y'>\n\
    <field name='Symbol' required='Y'/>\n\
    <field name='SecurityID' required='N'/>\n\
    <field name='SecurityIDSource' required='N'/>\n\
    <field name='SecurityType' required='N'/>\n\
    <field name='SecurityExchange' required='N'/>\n\
   </group>\n\
  </message>\n\
  <message name='MarketDataSnapshotFullRefresh' msgtype='W' msgcat='app'>\n\
   <field name='MDReqID' required='N'/>\n\
   <component name='Instrument' required='Y'/>\n\
   <group name='NoMDEntries' required='Y'>\n\
    <field name='MDEntryType' required='Y'/>\n\
    <field name='MDEntryPx' required='N'/>\n\
    <field name='Currency' required='N'/>\n\
    <field name='MDEntrySize' required='N'/>\n\
    <field name='MDEntryDate' required='N'/>\n\
    <field name='MDEntryTime' required='N'/>\n\
    <field name='Text' required='N'/>\n\
   </group>\n\
  </message>\n\
 </messages>\n\
 <trailer>\n\
  <field name='SignatureLength' required='N'/>\n\
  <field name='Signature' required='N'/>\n\
  <field name='CheckSum' required='Y'/>\n\
 </trailer>\n\
 <components>\n\
  <component name='Instrument'>\n\
   <field name='Symbol' required='Y'/>\n\
   <field name='SecurityID' required='N'/>\n\
   <field name='SecurityIDSource' required='N'/>\n\
   <field name='SecurityType' required='N'/>\n\
   <field name='SecurityExchange' required='N'/>\n\
  </component>\n\
  <component name='Parties'>\n\
   <group name='NoPartyIDs' required='N'>\n\
    <field name='PartyID' required='N'/>\n\
    <field name='PartyIDSource' required='N'/>\n\
    <field name='PartyRole' required='N'/>\n\
   </group>\n\
  </component>\n\
 </components>\n\
 <fields>\n\
  <field number='1' name='Account' type='STRING'/>\n\
  <field number='6' name='AvgPx' type='PRICE'/>\n\
  <field number='8' name='BeginString' type='STRING'/>\n\
  <field number='9' name='BodyLength' type='LENGTH'/>\n\
  <field number='10' name='CheckSum' type='STRING'/>\n\
  <field number='11' name='ClOrdID' type='STRING'/>\n\
  <field number='14' name='CumQty' type='QTY'/>\n\
  <field number='15' name='Currency' type='CURRENCY'/>\n\
  <field number='17' name='ExecID' type='STRING'/>\n\
  <field number='21' name='HandlInst' type='CHAR'>\n\
   <value enum='1' description='AUTOMATED_EXECUTION_ORDER_PRIVATE'/>\n\
   <value enum='2' description='AUTOMATED_EXECUTION_ORDER_PUBLIC'/>\n\
   <value enum='3' description='MANUAL_ORDER'/>\n\
  </field>\n\
  <field number='22' name='SecurityIDSource' type='STRING'>\n\
   <value enum='1' description='CUSIP'/>\n\
   <value enum='2' description='SEDOL'/>\n\
   <value enum='4' description='ISIN_NUMBER'/>\n\
   <value enum='8' description='EXCHANGE_SYMBOL'/>\n\
  </field>\n\
  <field number='34' name='MsgSeqNum' type='SEQNUM'/>\n\
  <field number='35' name='MsgType' type='STRING'>\n\
   <value enum='8' description='EXECUTIONREPORT'/>\n\
   <value enum='D' description='NEWORDERSINGLE'/>\n\
   <value enum='F' description='ORDERCANCELREQUEST'/>\n\
   <value enum='V' description='MARKETDATAREQUEST'/>\n\
   <value enum='W' description='MARKETDATASNAPSHOTFULLREFRESH'/>\n\
  </field>\n\
  <field number='37' name='OrderID' type='STRING'/>\n\
  <field number='38' name='OrderQty' type='QTY'/>\n\
  <field number='39' name='OrdStatus' type='CHAR'>\n\
   <value enum='0' description='NEW'/>\n\
   <value enum='1' description='PARTIALLY_FILLED'/>\n\
   <value enum='2' description='FILLED'/>\n\
   <value enum='4' description='CANCELED'/>\n\
   <value enum='8' description='REJECTED'/>\n\
  </field>\n\
  <field number='40' name='OrdType' type='CHAR'>\n\
   <value enum='1' description='MARKET'/>\n\
   <value enum='2' description='LIMIT'/>\n\
   <value enum='3' description='STOP'/>\n\
  </field>\n\
  <field number='41' name='OrigClOrdID' type='STRING'/>\n\
  <field number='43' name='PossDupFlag' type='BOOLEAN'/>\n\
  <field number='44' name='Price' type='PRICE'/>\n\
  <field number='48' name='SecurityID' type='STRING'/>\n\
  <field number='49' name='SenderCompID' type='STRING'/>\n\
  <field number='50' name='SenderSubID' type='STRING'/>\n\
  <field number='52' name='SendingTime' type='UTCTIMESTAMP'/>\n\
  <field number='54' name='Side' type='CHAR'>\n\
   <value enum='1' description='BUY'/>\n\
   <value enum='2' description='SELL'/>\n\
  </field>\n\
  <field number='55' name='Symbol' type='STRING'/>\n\
  <field number='56' name='TargetCompID' type='STRING'/>\n\
  <field number='57' name='TargetSubID' type='STRING'/>\n\
  <field number='58' name='Text' type='STRING'/>\n\
  <field number='59' name='TimeInForce' type='CHAR'>\n\
   <value enum='0' description='DAY'/>\n\
   <value enum='1' description='GOOD_TILL_CANCEL'/>\n\
   <value enum='3' description='IMMEDIATE_OR_CANCEL'/>\n\
  </field>\n\
  <field number='60' name='TransactTime' type='UTCTIMESTAMP'/>\n\
  <field number='89' name='Signature' type='DATA'/>\n\
  <field number='90' name='SecureDataLen' type='LENGTH'/>\n\
  <field number='91' name='SecureData' type='DATA'/>\n\
  <field number='93' name='SignatureLength' type='LENGTH'/>\n\
  <field number='97' name='PossResend' type='BOOLEAN'/>\n\
  <field number='115' name='OnBehalfOfCompID' type='STRING'/>\n\
  <field number='122' name='OrigSendingTime' type='UTCTIMESTAMP'/>\n\
  <field number='128' name='DeliverToCompID' type='STRING'/>\n\
  <field number='146' name='NoRelatedSym' type='NUMINGROUP'/>\n\
  <field number='150' name='ExecType' type='CHAR'>\n\
   <value enum='0' description='NEW'/>\n\
   <value enum='4' description='CANCELED'/>\n\
   <value enum='8' description='REJECTED'/>\n\
   <value enum='F' description='TRADE'/>\n\
  </field>\n\
  <field number='151' name='LeavesQty' type='QTY'/>\n\
  <field number='167' name='SecurityType' type='STRING'/>\n\
  <field number='207' name='SecurityExchange' type='EXCHANGE'/>\n\
  <field number='212' name='XmlDataLen' type='LENGTH'/>\n\
  <field number='213' name='XmlData' type='XMLDATA'/>\n\
  <field number='262' name='MDReqID' type='STRING'/>\n\
  <field number='263' name='SubscriptionRequestType' type='CHAR'>\n\
   <value enum='0' description='SNAPSHOT'/>\n\
   <value enum='1' description='SNAPSHOT_PLUS_UPDATES'/>\n\
   <value enum='2' description='DISABLE_PREVIOUS_SNAPSHOT_PLUS_UPDATE_REQUEST'/>\n\
  </field>\n\
  <field number='264' name='MarketDepth' type='INT'/>\n\
  <field number='267' name='NoMDEntryTypes' type='NUMINGROUP'/>\n\
  <field number='268' name='NoMDEntries' type='NUMINGROUP'/>\n\
  <field number='269' name='MDEntryType' type='CHAR'>\n\
   <value enum='0' description='BID'/>\n\
   <value enum='1' description='OFFER'/>\n\
   <value enum='2' description='TRADE'/>\n\
  </field>\n\
  <field number='270' name='MDEntryPx' type='PRICE'/>\n\
  <field number='271' name='MDEntrySize' type='QTY'/>\n\
  <field number='272' name='MDEntryDate' type='UTCDATE'/>\n\
  <field number='273' name='MDEntryTime' type='UTCTIMEONLY'/>\n\
  <field number='347' name='MessageEncoding' type='STRING'/>\n\
  <field number='369' name='LastMsgSeqNumProcessed' type='SEQNUM'/>\n\
  <field number='447' name='PartyIDSource' type='CHAR'/>\n\
  <field number='448' name='PartyID' type='STRING'/>\n\
  <field number='452' name='PartyRole' type='INT'/>\n\
  <field number='453' name='NoPartyIDs' type='NUMINGROUP'/>\n\
  <field number='627' name='NoHops' type='NUMINGROUP'/>\n\
  <field number='628' name='HopCompID' type='STRING'/>\n\
  <field number='629' name='HopSendingTime' type='UTCTIMESTAMP'/>\n\
  <field number='630' name='HopRefID' type='SEQNUM'/>\n\
  <field number='1128' name='ApplVerID' type='STRING'>\n\
   <value enum='7' description='FIX50'/>\n\
   <value enum='8' description='FIX50SP1'/>\n\
   <value enum='9' description='FIX50SP2'/>\n\
  </field>\n\
  <field number='1129' name='CstmApplVerID' type='STRING'/>\n\
  <field number='1156' name='ApplExtID' type='INT'/>\n\
 </fields>\n\
</fix>\n\
";

/// The dictionary of FIXT 1.1, after the line that opens its root element.
pub const QUICKFIX_FIXT11: &'static str = "\
 <header>\n\
  <field name='BeginString' required='Y'/>\n\
  <field name='BodyLength' required='Y'/>\n\
  <field name='MsgType' required='Y'/>\n\
  <field name='SenderCompID' required='Y'/>\n\
  <field name='TargetCompID' required='Y'/>\n\
  <field name='ApplVerID' required='N'/>\n\
  <field name='CstmApplVerID' required='N'/>\n\
  <field name='ApplExtID' required='N'/>\n\
  <field name='OnBehalfOfCompID' required='N'/>\n\
  <field name='DeliverToCompID' required='N'/>\n\
  <field name='SecureDataLen' required='N'/>\n\
  <field name='SecureData' required='N'/>\n\
  <field name='MsgSeqNum' required='Y'/>\n\
  <field name='SenderSubID' required='N'/>\n\
  <field name='TargetSubID' required='N'/>\n\
  <field name='PossDupFlag' required='N'/>\n\
  <field name='PossResend' required='N'/>\n\
  <field name='SendingTime' required='Y'/>\n\
  <field name='OrigSendingTime' required='N'/>\n\
  <field name='XmlDataLen' required='N'/>\n\
  <field name='XmlData' required='N'/>\n\
  <field name='MessageEncoding' required='N'/>\n\
  <field name='LastMsgSeqNumProcessed' required='N'/>\n\
  <group name='NoHops' required='N'>\n\
   <field name='HopCompID' required='N'/>\n\
   <field name='HopSendingTime' required='N'/>\n\
   <field name='HopRefID' required='N'/>\n\
  </group>\n\
 </header>\n\
 <messages>\n\
  <message name='Heartbeat' msgtype='0' msgcat='admin'>\n\
   <field name='TestReqID' required='N'/>\n\
  </message>\n\
  <message name='TestRequest' msgtype='1' msgcat='admin'>\n\
   <field name='TestReqID' required='Y'/>\n\
  </message>\n\
  <message name='ResendRequest' msgtype='2' msgcat='admin'>\n\
   <field name='BeginSeqNo' required='Y'/>\n\
   <field name='EndSeqNo' required='Y'/>\n\
  </message>\n\
  <message name='Reject' msgtype='3' msgcat='admin'>\n\
   <field name='RefSeqNum' required='Y'/>\n\
   <field name='RefTagID' required='N'/>\n\
   <field name='RefMsgType' required='N'/>\n\
   <field name='SessionRejectReason' required='N'/>\n\
   <field name='Text' required='N'/>\n\
  </message>\n\
  <message name='SequenceReset' msgtype='4' msgcat='admin'>\n\
   <field name='GapFillFlag' required='N'/>\n\
   <field name='NewSeqNo' required='Y'/>\n\
  </message>\n\
  <message name='Logout' msgtype='5' msgcat='admin'>\n\
   <field name='SessionStatus' required='N'/>\n\
   <field name='Text' required='N'/>\n\
  </message>\n\
  <message name='Logon' msgtype='A' msgcat='admin'>\n\
   <field name='EncryptMethod' required='Y'/>\n\
   <field name='HeartBtInt' required='Y'/>\n\
   <field name='RawDataLength' required='N'/>\n\
   <field name='RawData' required='N'/>\n\
   <field name='ResetSeqNumFlag' required='N'/>\n\
   <field name='MaxMessageSize' required='N'/>\n\
   <group name='NoMsgTypes' required='N'>\n\
    <field name='RefMsgType' required='N'/>\n\
    <field name='MsgDirection' required='N'/>\n\
   </group>\n\
   <field name='NextExpectedMsgSeqNum' required='N'/>\n\
   <field name='TestMessageIndicator' required='N'/>\n\
   <field name='Username' required='N'/>\n\
   <field name='Password' required='N'/>\n\
   <field name='DefaultApplVerID' required='Y'/>\n\
  </message>\n\
 </messages>\n\
 <trailer>\n\
  <field name='SignatureLength' required='N'/>\n\
  <field name='Signature' required='N'/>\n\
  <field name='CheckSum' required='Y'/>\n\
 </trailer>\n\
 <components>\n\
 </components>\n\
 <fields>\n\
  <field number='7' name='BeginSeqNo' type='SEQNUM'/>\n\
  <field number='8' name='BeginString' type='STRING'/>\n\
  <field number='9' name='BodyLength' type='LENGTH'/>\n\
  <field number='10' name='CheckSum' type='STRING'/>\n\
  <field number='16' name='EndSeqNo' type='SEQNUM'/>\n\
  <field number='34' name='MsgSeqNum' type='SEQNUM'/>\n\
  <field number='35' name='MsgType' type='STRING'>\n\
   <value enum='0' description='HEARTBEAT'/>\n\
   <value enum='1' description='TESTREQUEST'/>\n\
   <value enum='2' description='RESENDREQUEST'/>\n\
   <value enum='3' description='REJECT'/>\n\
   <value enum='4' description='SEQUENCERESET'/>\n\
   <value enum='5' description='LOGOUT'/>\n\
   <value enum='A' description='LOGON'/>\n\
  </field>\n\
  <field number='36' name='NewSeqNo' type='SEQNUM'/>\n\
  <field number='43' name='PossDupFlag' type='BOOLEAN'/>\n\
  <field number='45' name='RefSeqNum' type='SEQNUM'/>\n\
  <field number='49' name='SenderCompID' type='STRING'/>\n\
  <field number='50' name='SenderSubID' type='STRING'/>\n\
  <field number='52' name='SendingTime' type='UTCTIMESTAMP'/>\n\
  <field number='56' name='TargetCompID' type='STRING'/>\n\
  <field number='57' name='TargetSubID' type='STRING'/>\n\
  <field number='58' name='Text' type='STRING'/>\n\
  <field number='89' name='Signature' type='DATA'/>\n\
  <field number='90' name='SecureDataLen' type='LENGTH'/>\n\
  <field number='91' name='SecureData' type='DATA'/>\n\
  <field number='93' name='SignatureLength' type='LENGTH'/>\n\
  <field number='95' name='RawDataLength' type='LENGTH'/>\n\
  <field number='96' name='RawData' type='DATA'/>\n\
  <field number='97' name='PossResend' type='BOOLEAN'/>\n\
  <field number='98' name='EncryptMethod' type='INT'>\n\
   <value enum='0' description='NONE'/>\n\
  </field>\n\
  <field number='108' name='HeartBtInt' type='INT'/>\n\
  <field number='112' name='TestReqID' type='STRING'/>\n\
  <field number='115' name='OnBehalfOfCompID' type='STRING'/>\n\
  <field number='122' name='OrigSendingTime' type='UTCTIMESTAMP'/>\n\
  <field number='123' name='GapFillFlag' type='BOOLEAN'/>\n\
  <field number='128' name='DeliverToCompID' type='STRING'/>\n\
  <field number='141' name='ResetSeqNumFlag' type='BOOLEAN'/>\n\
  <field number='212' name='XmlDataLen' type='LENGTH'/>\n\
  <field number='213' name='XmlData' type='XMLDATA'/>\n\
  <field number='347' name='MessageEncoding' type='STRING'/>\n\
  <field number='369' name='LastMsgSeqNumProcessed' type='SEQNUM'/>\n\
  <field number='371' name='RefTagID' type='INT'/>\n\
  <field number='372' name='RefMsgType' type='STRING'/>\n\
  <field number='373' name='SessionRejectReason' type='INT'/>\n\
  <field number='383' name='MaxMessageSize' type='LENGTH'/>\n\
  <field number='384' name='NoMsgTypes' type='NUMINGROUP'/>\n\
  <field number='385' name='MsgDirection' type='CHAR'>\n\
   <value enum='R' description='RECEIVE'/>\n\
   <value enum='S' description='SEND'/>\n\
  </field>\n\
  <field number='464' name='TestMessageIndicator' type='BOOLEAN'/>\n\
  <field number='553' name='Username' type='STRING'/>\n\
  <field number='554' name='Password' type='STRING'/>\n\
  <field number='627' name='NoHops' type='NUMINGROUP'/>\n\
  <field number='628' name='HopCompID' type='STRING'/>\n\
  <field number='629' name='HopSendingTime' type='UTCTIMESTAMP'/>\n\
  <field number='630' name='HopRefID' type='SEQNUM'/>\n\
  <field number='789' name='NextExpectedMsgSeqNum' type='SEQNUM'/>\n\
  <field number='1128' name='ApplVerID' type='STRING'>\n\
   <value enum='7' description='FIX50'/>\n\
   <value enum='8' description='FIX50SP1'/>\n\
   <value enum='9' description='FIX50SP2'/>\n\
  </field>\n\
  <field number='1129' name='CstmApplVerID' type='STRING'/>\n\
  <field number='1137' name='DefaultApplVerID' type='STRING'/>\n\
  <field number='1156' name='ApplExtID' type='INT'/>\n\
  <field number='1409' name='SessionStatus' type='INT'/>\n\
 </fields>\n\
</fix>\n\
";

} // verus!
